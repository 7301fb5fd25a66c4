//! A singly linked list of strings that keeps its length.
use vstd::prelude::*;
use crate::text::{join, joined};

verus! {

/// A node of a singly linked list of strings.
#[derive(Debug, PartialEq)]
pub struct Node {
    pub value: String,
    pub next: Option<Box<Node>>,
}

/// The strings held from an optional node to the end of the chain.
pub open spec fn chain(n: Option<Box<Node>>) -> Seq<String>
    decreases n,
{
    match n {
        None => Seq::empty(),
        Some(b) => seq![b.value].add(chain(b.next)),
    }
}

/// A singly linked list of strings that keeps its length.
#[derive(Debug, PartialEq)]
pub struct LinkedList {
    head: Option<Box<Node>>,
    len: usize,
}

impl View for LinkedList {
    type V = Seq<String>;

    closed spec fn view(&self) -> Seq<String> {
        chain(self.head)
    }
}

/// The string views of a sequence of strings.
pub open spec fn views(s: Seq<String>) -> Seq<Seq<char>> {
    s.map_values(|x: String| x@)
}

proof fn lemma_views_cons(x: String, s: Seq<String>)
    ensures
        views(seq![x].add(s)) == seq![x@].add(views(s)),
{
    assert(views(seq![x].add(s)) =~= seq![x@].add(views(s)));
}

impl Clone for Node {
    /// A deep copy of the chain that starts at this node.
    fn clone(&self) -> (r: Self)
        ensures
            views(chain(Some(Box::new(r)))) == views(chain(Some(Box::new(*self)))),
        decreases self,
    {
        let next = match &self.next {
            None => None,
            Some(n) => Some(Box::new((**n).clone())),
        };
        let r = Node { value: self.value.clone(), next };
        assert(views(chain(r.next)) =~= views(chain(self.next)));
        proof {
            lemma_views_cons(r.value, chain(r.next));
            lemma_views_cons(self.value, chain(self.next));
        }
        assert(views(chain(Some(Box::new(r)))) =~= views(chain(Some(Box::new(*self)))));
        r
    }
}

impl Clone for LinkedList {
    /// A deep copy of the list.
    fn clone(&self) -> (r: Self)
        ensures
            views(r@) == views(self@),
    {
        proof { use_type_invariant(self); }
        let head = match &self.head {
            None => None,
            Some(n) => Some(Box::new((**n).clone())),
        };
        assert(views(chain(head)) =~= views(chain(self.head)));
        assert(chain(head).len() == views(chain(head)).len());
        LinkedList { head, len: self.len }
    }
}

impl LinkedList {
    #[verifier::type_invariant]
    closed spec fn len_matches(&self) -> bool {
        self.len as nat == chain(self.head).len()
    }
}

/// Appends `value` after the last node of the chain that starts at `node`.
fn append_at_tail(node: &mut Node, value: String)
    ensures
        chain(Some(Box::new(*final(node)))) == chain(Some(Box::new(*old(node)))).push(value),
    decreases *old(node),
{
    match &mut node.next {
        None => {
            let leaf = Node { value, next: None };
            assert(chain(leaf.next) == Seq::<String>::empty());
            assert(chain(Some(Box::new(leaf))) =~= seq![value]);
            node.next = Some(Box::new(leaf));
            assert(chain(Some(Box::new(*node))) == seq![node.value].add(chain(node.next)));
            assert(chain(Some(Box::new(*node))) =~= chain(Some(Box::new(*old(node)))).push(value));
        },
        Some(n) => {
            append_at_tail(n, value);
            assert(chain(Some(Box::new(*node))) == seq![node.value].add(chain(node.next)));
            assert(chain(Some(Box::new(*node))) =~= chain(Some(Box::new(*old(node)))).push(value));
        },
    }
}

impl LinkedList {
    /// An empty list.
    pub fn new() -> (l: Self)
        ensures
            l@ == Seq::<String>::empty(),
    {
        LinkedList { head: None, len: 0 }
    }

    /// Puts `value` in front of the list and returns the new length.
    pub fn push(&mut self, value: String) -> (n: usize)
        requires
            old(self)@.len() < usize::MAX,
        ensures
            final(self)@ == seq![value].add(old(self)@),
            n == final(self)@.len(),
    {
        proof { use_type_invariant(&*self); }
        let mut old_list = LinkedList::new();
        std::mem::swap(&mut old_list, self);
        proof { use_type_invariant(&old_list); }
        let new_node = Box::new(Node { value, next: old_list.head });
        let new_len = old_list.len + 1;
        *self = LinkedList { head: Some(new_node), len: new_len };
        new_len
    }

    /// Removes and returns the front value, or `None` when the list is empty.
    pub fn pop(&mut self) -> (r: Option<String>)
        ensures
            old(self)@.len() == 0 ==> r.is_none() && final(self)@ == old(self)@,
            old(self)@.len() > 0 ==> r == Some(old(self)@[0]) && final(self)@ == old(self)@.drop_first(),
    {
        proof { use_type_invariant(&*self); }
        let mut old_list = LinkedList::new();
        std::mem::swap(&mut old_list, self);
        proof { use_type_invariant(&old_list); }
        match old_list.head {
            Some(n) => {
                let node = *n;
                assert(chain(node.next) =~= chain(old_list.head).drop_first());
                *self = LinkedList { head: node.next, len: old_list.len - 1 };
                Some(node.value)
            },
            None => {
                *self = old_list;
                None
            },
        }
    }

    /// The number of values in the list.
    pub fn len(&self) -> (n: usize)
        ensures
            n == self@.len(),
    {
        proof { use_type_invariant(self); }
        self.len
    }

    /// Whether the list holds no value.
    pub fn is_empty(&self) -> (b: bool)
        ensures
            b == (self@.len() == 0),
    {
        proof { use_type_invariant(self); }
        self.len == 0 || self.head.is_none()
    }

    /// A list holding copies of `items`, in the same order.
    pub fn from_vec(items: &[&str]) -> (l: Self)
        requires
            items@.len() < usize::MAX,
        ensures
            l@.len() == items@.len(),
            forall|i: int| 0 <= i < items@.len() ==> #[trigger] l@[i]@ == items@[i]@,
    {
        let mut list = LinkedList::new();
        let mut k = items.len();
        while k > 0
            invariant
                k <= items@.len(),
                items@.len() < usize::MAX,
                list@.len() == items@.len() - k,
                forall|i: int| 0 <= i < list@.len() ==> #[trigger] list@[i]@ == items@[k + i]@,
            decreases k,
        {
            k = k - 1;
            let s = String::from_str(items[k]);
            let ghost before = list@;
            list.push(s);
            assert forall|i: int| 0 <= i < list@.len() implies #[trigger] list@[i]@ == items@[k + i]@ by {
                if i > 0 {
                    assert(list@[i] == before[i - 1]);
                }
            }
        }
        list
    }

    /// Appends `value` after the last value and returns the new length.
    pub fn push2(&mut self, value: String) -> (n: usize)
        requires
            old(self)@.len() < usize::MAX,
        ensures
            final(self)@ == old(self)@.push(value),
            n == final(self)@.len(),
    {
        proof { use_type_invariant(&*self); }
        let mut old_list = LinkedList::new();
        std::mem::swap(&mut old_list, self);
        proof { use_type_invariant(&old_list); }
        match old_list.head {
            None => {
                let n = Box::new(Node { value, next: None });
                assert(chain(Some(n)) =~= old_list@.push(value));
                *self = LinkedList { head: Some(n), len: 1 };
                1
            },
            Some(h) => {
                let mut node = *h;
                append_at_tail(&mut node, value);
                let new_len = old_list.len + 1;
                *self = LinkedList { head: Some(Box::new(node)), len: new_len };
                new_len
            },
        }
    }
}

/// Appends copies of the strings of the chain that starts at `n` to `out`.
fn copy_chain(n: &Option<Box<Node>>, out: &mut Vec<String>)
    ensures
        views(final(out)@) == views(old(out)@) + views(chain(*n)),
    decreases *n,
{
    match n {
        None => {
            assert(views(out@) =~= views(out@) + views(chain(*n)));
        },
        Some(b) => {
            let ghost before = out@;
            out.push(b.value.clone());
            let ghost mid = out@;
            copy_chain(&b.next, out);
            proof {
                lemma_views_cons(b.value, chain(b.next));
                assert(views(mid) =~= views(before).push(b.value@));
                assert(views(out@) =~= views(before) + views(chain(*n)));
            }
        },
    }
}

impl Default for LinkedList {
    /// An empty list.
    fn default() -> (l: Self)
        ensures
            l@ == Seq::<String>::empty(),
    {
        LinkedList::new()
    }
}

impl LinkedList {
    /// The values from front to back, separated by single spaces.
    pub fn to_text(&self) -> (r: String)
        ensures
            r@ == joined(views(self@), " "@),
    {
        let mut values: Vec<String> = Vec::new();
        copy_chain(&self.head, &mut values);
        assert(views(values@) =~= views(self@));
        join(&values, " ")
    }
}

/// Taking the front value right after putting one in front gives it back and leaves the
/// list as it was.
pub proof fn law_pop_undoes_push(list: Seq<String>, value: String)
    ensures
        seq![value].add(list).len() > 0,
        seq![value].add(list)[0] == value,
        seq![value].add(list).drop_first() == list,
{
    assert(seq![value].add(list).drop_first() =~= list);
}

} // verus!
