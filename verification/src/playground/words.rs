//! Words of a text, word counts and their merging, and greetings.
use vstd::prelude::*;
use crate::text::{chars_of, lowercase_text, to_lowercase};

verus! {

/// Whether `c` has the Unicode `White_Space` property, which std's `char::is_whitespace`
/// tests: tab through carriage return, space, next line, no-break space, ogham space mark,
/// the spaces from en quad to hair space, line and paragraph separators, narrow no-break
/// space, medium mathematical space and ideographic space.
pub open spec fn white_space(c: char) -> bool {
    ||| ('\u{9}' <= c && c <= '\u{d}')
    ||| c == ' '
    ||| c == '\u{85}'
    ||| c == '\u{a0}'
    ||| c == '\u{1680}'
    ||| ('\u{2000}' <= c && c <= '\u{200a}')
    ||| c == '\u{2028}'
    ||| c == '\u{2029}'
    ||| c == '\u{202f}'
    ||| c == '\u{205f}'
    ||| c == '\u{3000}'
}

/// Whether `c` is white space.
fn is_white_space(c: char) -> (b: bool)
    ensures
        b == white_space(c),
{
    ('\u{9}' <= c && c <= '\u{d}') || c == ' ' || c == '\u{85}' || c == '\u{a0}' || c == '\u{1680}'
        || ('\u{2000}' <= c && c <= '\u{200a}') || c == '\u{2028}' || c == '\u{2029}'
        || c == '\u{202f}' || c == '\u{205f}' || c == '\u{3000}'
}

/// The words among the first `n` characters of `s`: its maximal runs of characters that
/// are not white space, in order.
pub open spec fn words_upto(s: Seq<char>, n: int) -> Seq<Seq<char>>
    decreases n,
{
    if n <= 0 {
        Seq::empty()
    } else {
        let prev = words_upto(s, n - 1);
        if white_space(s[n - 1]) {
            prev
        } else if n == 1 || white_space(s[n - 2]) {
            prev.push(seq![s[n - 1]])
        } else {
            prev.drop_last().push(prev.last().push(s[n - 1]))
        }
    }
}

/// The words of `s`, as `str::split_whitespace` yields them.
pub open spec fn words_of(s: Seq<char>) -> Seq<Seq<char>> {
    words_upto(s, s.len() as int)
}

proof fn lemma_words_len(s: Seq<char>, n: int)
    requires
        0 <= n <= s.len(),
    ensures
        words_upto(s, n).len() <= n,
        n > 0 && !white_space(s[n - 1]) ==> words_upto(s, n).len() > 0,
    decreases n,
{
    if n > 0 {
        lemma_words_len(s, n - 1);
    }
}

/// The number of words in `text`, that is, of maximal runs of non-white-space characters.
pub fn count_words(text: &str) -> (n: usize)
    ensures
        n == words_of(text@).len(),
{
    let cs = chars_of(text);
    let mut n: usize = 0;
    let mut i: usize = 0;
    while i < cs.len()
        invariant
            cs@ == text@,
            i <= cs.len(),
            n == words_upto(text@, i as int).len(),
        decreases cs.len() - i,
    {
        proof {
            lemma_words_len(text@, i as int);
            lemma_words_len(text@, i + 1);
        }
        let c = cs[i];
        if !is_white_space(c) && (i == 0 || is_white_space(cs[i - 1])) {
            n = n + 1;
        }
        i = i + 1;
    }
    n
}

/// A greeting for `name`: `Hello, ` then the name, then `!`.
pub fn greeting(name: &str) -> (r: String)
    ensures
        r@ == "Hello, "@ + name@ + "!"@,
{
    let mut r = String::from_str("Hello, ");
    r.append(name);
    r.append("!");
    r
}

/// The words of the entries, as characters.
pub open spec fn entry_words(s: Seq<(String, usize)>) -> Seq<Seq<char>> {
    s.map_values(|e: (String, usize)| e.0@)
}

/// The entry that holds word `w`.
pub open spec fn entry_of(s: Seq<(String, usize)>, w: Seq<char>) -> int {
    choose|i: int| 0 <= i < s.len() && s[i].0@ == w
}

/// The count each word has in the entries.
pub open spec fn entries_map(s: Seq<(String, usize)>) -> Map<Seq<char>, usize> {
    Map::new(
        |w: Seq<char>| exists|i: int| 0 <= i < s.len() && s[i].0@ == w,
        |w: Seq<char>| s[entry_of(s, w)].1,
    )
}

/// The count of `w` in `m`, zero when it is absent.
pub open spec fn count_in(m: Map<Seq<char>, usize>, w: Seq<char>) -> int {
    if m.contains_key(w) {
        m[w] as int
    } else {
        0
    }
}

proof fn lemma_entry_of(s: Seq<(String, usize)>, i: int)
    requires
        entry_words(s).no_duplicates(),
        0 <= i < s.len(),
    ensures
        entry_of(s, s[i].0@) == i,
{
    let j = entry_of(s, s[i].0@);
    assert(0 <= j < s.len() && s[j].0@ == s[i].0@);
    if j != i {
        assert(entry_words(s)[i] == entry_words(s)[j]);
    }
}

/// Counts of words.
pub struct WordCounts {
    entries: Vec<(String, usize)>,
}

impl View for WordCounts {
    type V = Map<Seq<char>, usize>;

    /// The count of each word that has one.
    closed spec fn view(&self) -> Map<Seq<char>, usize> {
        entries_map(self.entries@)
    }
}

impl WordCounts {
    #[verifier::type_invariant]
    closed spec fn words_distinct(&self) -> bool {
        entry_words(self.entries@).no_duplicates()
    }

    /// No word counted.
    pub fn new() -> (r: Self)
        ensures
            r@ == Map::<Seq<char>, usize>::empty(),
    {
        let r = WordCounts { entries: Vec::new() };
        assert(r@ =~= Map::<Seq<char>, usize>::empty());
        r
    }

    /// The entry holding `word`, if any.
    fn position(&self, word: &str) -> (r: Option<usize>)
        ensures
            r matches Some(i) ==> i < self.entries@.len() && self.entries@[i as int].0@ == word@,
            r is None ==> forall|j: int| 0 <= j < self.entries@.len() ==> self.entries@[j].0@ != word@,
    {
        let wanted = String::from_str(word);
        let mut i: usize = 0;
        while i < self.entries.len()
            invariant
                i <= self.entries@.len(),
                wanted@ == word@,
                forall|j: int| 0 <= j < i ==> self.entries@[j].0@ != word@,
            decreases self.entries@.len() - i,
        {
            if self.entries[i].0 == wanted {
                return Some(i);
            }
            i = i + 1;
        }
        None
    }

    /// The count of `word`, if it has one.
    pub fn get(&self, word: &str) -> (r: Option<usize>)
        ensures
            match r {
                Some(n) => self@.contains_key(word@) && n == self@[word@],
                None => !self@.contains_key(word@),
            },
    {
        proof { use_type_invariant(self); }
        match self.position(word) {
            Some(i) => {
                proof { lemma_entry_of(self.entries@, i as int); }
                Some(self.entries[i].1)
            },
            None => None,
        }
    }

    /// The number of words counted.
    pub fn len(&self) -> (n: usize)
        ensures
            n == self@.len(),
    {
        proof {
            use_type_invariant(self);
            let ws = entry_words(self.entries@);
            ws.unique_seq_to_set();
            assert(ws.to_set() =~= self@.dom()) by {
                assert forall|w: Seq<char>| ws.to_set().contains(w) implies self@.dom().contains(w) by {
                    let j = choose|j: int| 0 <= j < ws.len() && ws[j] == w;
                    assert(self.entries@[j].0@ == w);
                }
                assert forall|w: Seq<char>| self@.dom().contains(w) implies ws.to_set().contains(w) by {
                    let j = choose|j: int| 0 <= j < self.entries@.len() && self.entries@[j].0@ == w;
                    assert(ws[j] == w);
                }
            }
        }
        self.entries.len()
    }

    /// Sets the count of `word` to `count`.
    pub fn insert(&mut self, word: String, count: usize)
        ensures
            final(self)@ == old(self)@.insert(word@, count),
    {
        proof { use_type_invariant(&*self); }
        let ghost before = self.entries@;
        let ghost w = word@;
        let pos = self.position(word.as_str());
        let mut entries = Vec::new();
        std::mem::swap(&mut entries, &mut self.entries);
        match pos {
            Some(i) => {
                entries.set(i, (word, count));
                proof {
                    assert(entry_words(entries@) =~= entry_words(before));
                    assert forall|k: Seq<char>| #[trigger] entries_map(entries@).contains_key(k) == entries_map(before).insert(w, count).contains_key(k) by {
                        if k == w {
                            assert(entries@[i as int].0@ == k);
                        } else if entries_map(before).contains_key(k) {
                            let j = choose|j: int| 0 <= j < before.len() && before[j].0@ == k;
                            assert(entries@[j].0@ == k);
                        } else if entries_map(entries@).contains_key(k) {
                            let j = choose|j: int| 0 <= j < entries@.len() && entries@[j].0@ == k;
                            assert(before[j].0@ == k);
                        }
                    }
                    assert forall|k: Seq<char>| #[trigger] entries_map(entries@).contains_key(k) implies entries_map(entries@)[k] == entries_map(before).insert(w, count)[k] by {
                        let j = choose|j: int| 0 <= j < entries@.len() && entries@[j].0@ == k;
                        lemma_entry_of(entries@, j);
                        lemma_entry_of(before, j);
                        if j != i {
                            assert(entries@[j] == before[j]);
                            assert(entry_words(before)[j] != entry_words(before)[i as int]);
                        }
                    }
                    assert(entries_map(entries@) =~= entries_map(before).insert(w, count));
                }
            },
            None => {
                entries.push((word, count));
                proof {
                    assert(entry_words(entries@) =~= entry_words(before).push(w));
                    assert forall|k: Seq<char>| #[trigger] entries_map(entries@).contains_key(k) == entries_map(before).insert(w, count).contains_key(k) by {
                        if k == w {
                            assert(entries@[before.len() as int].0@ == k);
                        } else if entries_map(before).contains_key(k) {
                            let j = choose|j: int| 0 <= j < before.len() && before[j].0@ == k;
                            assert(entries@[j].0@ == k);
                        } else if entries_map(entries@).contains_key(k) {
                            let j = choose|j: int| 0 <= j < entries@.len() && entries@[j].0@ == k;
                            assert(before[j].0@ == k);
                        }
                    }
                    assert forall|k: Seq<char>| #[trigger] entries_map(entries@).contains_key(k) implies entries_map(entries@)[k] == entries_map(before).insert(w, count)[k] by {
                        let j = choose|j: int| 0 <= j < entries@.len() && entries@[j].0@ == k;
                        lemma_entry_of(entries@, j);
                        if j < before.len() {
                            lemma_entry_of(before, j);
                        }
                    }
                    assert(entries_map(entries@) =~= entries_map(before).insert(w, count));
                }
            },
        }
        self.entries = entries;
    }

    /// Adds `n` to the count of `word`, which starts at zero.
    pub fn add(&mut self, word: String, n: usize)
        requires
            count_in(old(self)@, word@) + n <= usize::MAX,
        ensures
            final(self)@ == old(self)@.insert(word@, (count_in(old(self)@, word@) + n) as usize),
    {
        let current = match self.get(word.as_str()) {
            Some(c) => c,
            None => 0,
        };
        self.insert(word, current + n);
    }
}

/// The count of `w` summed over all the maps.
pub open spec fn total_count(ms: Seq<Map<Seq<char>, usize>>, w: Seq<char>) -> int
    decreases ms.len(),
{
    if ms.len() == 0 {
        0
    } else {
        total_count(ms.drop_last(), w) + count_in(ms.last(), w)
    }
}

/// Whether some map counts `w`.
pub open spec fn counted_anywhere(ms: Seq<Map<Seq<char>, usize>>, w: Seq<char>) -> bool {
    exists|i: int| 0 <= i < ms.len() && #[trigger] ms[i].contains_key(w)
}

/// The content of each of the counts.
pub open spec fn count_views(all: Seq<WordCounts>) -> Seq<Map<Seq<char>, usize>> {
    all.map_values(|c: WordCounts| c@)
}

proof fn lemma_total_step(ms: Seq<Map<Seq<char>, usize>>, i: int, w: Seq<char>)
    requires
        0 <= i < ms.len(),
    ensures
        total_count(ms.take(i + 1), w) == total_count(ms.take(i), w) + count_in(ms[i], w),
        counted_anywhere(ms.take(i + 1), w) == (counted_anywhere(ms.take(i), w) || ms[i].contains_key(w)),
{
    assert(ms.take(i + 1).drop_last() =~= ms.take(i));
    if counted_anywhere(ms.take(i + 1), w) && !ms[i].contains_key(w) {
        let k = choose|k: int| 0 <= k < ms.take(i + 1).len() && #[trigger] ms.take(i + 1)[k].contains_key(w);
        assert(ms.take(i)[k] == ms[k]);
    }
    if counted_anywhere(ms.take(i), w) {
        let k = choose|k: int| 0 <= k < ms.take(i).len() && #[trigger] ms.take(i)[k].contains_key(w);
        assert(ms.take(i + 1)[k] == ms[k]);
    }
    if ms[i].contains_key(w) {
        assert(ms.take(i + 1)[i] == ms[i]);
    }
}

proof fn lemma_total_absent(ms: Seq<Map<Seq<char>, usize>>, w: Seq<char>)
    requires
        !counted_anywhere(ms, w),
    ensures
        total_count(ms, w) == 0,
    decreases ms.len(),
{
    if ms.len() > 0 {
        assert(!ms[ms.len() - 1].contains_key(w));
        assert forall|k: int| 0 <= k < ms.drop_last().len() implies !#[trigger] ms.drop_last()[k].contains_key(w) by {
            assert(ms.drop_last()[k] == ms[k]);
        }
        lemma_total_absent(ms.drop_last(), w);
    }
}

proof fn lemma_total_prefix_bound(ms: Seq<Map<Seq<char>, usize>>, i: int, w: Seq<char>)
    requires
        0 <= i <= ms.len(),
    ensures
        0 <= total_count(ms.take(i), w) <= total_count(ms, w),
    decreases ms.len(),
{
    if ms.len() > 0 {
        if i == ms.len() {
            assert(ms.take(i) =~= ms);
            lemma_total_prefix_bound(ms.drop_last(), i - 1, w);
            assert(ms.drop_last().take(i - 1) =~= ms.drop_last());
        } else {
            lemma_total_prefix_bound(ms.drop_last(), i, w);
            assert(ms.drop_last().take(i) =~= ms.take(i));
            lemma_total_prefix_bound(ms.drop_last(), ms.len() - 1, w);
            assert(ms.drop_last().take(ms.len() - 1) =~= ms.drop_last());
        }
    } else {
        assert(ms.take(i) =~= ms);
    }
}

proof fn lemma_entries_take_step(s: Seq<(String, usize)>, j: int)
    requires
        entry_words(s).no_duplicates(),
        0 <= j < s.len(),
    ensures
        !entries_map(s.take(j)).contains_key(s[j].0@),
        entries_map(s.take(j + 1)) == entries_map(s.take(j)).insert(s[j].0@, s[j].1),
{
    let a = s.take(j);
    let b = s.take(j + 1);
    assert forall|k: int| 0 <= k < a.len() implies #[trigger] a[k].0@ != s[j].0@ by {
        assert(entry_words(s)[k] != entry_words(s)[j]);
    }
    assert(entry_words(b).no_duplicates()) by {
        assert forall|x: int, y: int| 0 <= x < b.len() && 0 <= y < b.len() && x != y implies entry_words(b)[x] != entry_words(b)[y] by {
            assert(entry_words(b)[x] == entry_words(s)[x]);
            assert(entry_words(b)[y] == entry_words(s)[y]);
        }
    }
    assert(entry_words(a).no_duplicates()) by {
        assert forall|x: int, y: int| 0 <= x < a.len() && 0 <= y < a.len() && x != y implies entry_words(a)[x] != entry_words(a)[y] by {
            assert(entry_words(a)[x] == entry_words(s)[x]);
            assert(entry_words(a)[y] == entry_words(s)[y]);
        }
    }
    let want = entries_map(a).insert(s[j].0@, s[j].1);
    assert forall|k: Seq<char>| #[trigger] entries_map(b).contains_key(k) == want.contains_key(k) by {
        if entries_map(b).contains_key(k) {
            let x = choose|x: int| 0 <= x < b.len() && b[x].0@ == k;
            if x < j {
                assert(a[x].0@ == k);
            }
        }
        if entries_map(a).contains_key(k) {
            let x = choose|x: int| 0 <= x < a.len() && a[x].0@ == k;
            assert(b[x].0@ == k);
        }
        if k == s[j].0@ {
            assert(b[j].0@ == k);
        }
    }
    assert forall|k: Seq<char>| #[trigger] entries_map(b).contains_key(k) implies entries_map(b)[k] == want[k] by {
        let x = choose|x: int| 0 <= x < b.len() && b[x].0@ == k;
        lemma_entry_of(b, x);
        if x < j {
            lemma_entry_of(a, x);
        }
    }
    assert(entries_map(b) =~= want);
}

/// The counts of all of `all_counts` added up word by word, or `None` when the total of
/// some word does not fit in a `usize`.
pub fn merge_counts_checked(all_counts: Vec<WordCounts>) -> (r: Option<WordCounts>)
    ensures
        r is None <==> exists|w: Seq<char>| #[trigger] total_count(count_views(all_counts@), w) > usize::MAX,
        r matches Some(m) ==> forall|w: Seq<char>| #[trigger] m@.contains_key(w) == counted_anywhere(count_views(all_counts@), w),
        r matches Some(m) ==> forall|w: Seq<char>| #[trigger] m@.contains_key(w) ==> m@[w] == total_count(count_views(all_counts@), w),
{
    let ghost views = count_views(all_counts@);
    let mut merged = WordCounts::new();
    let mut i: usize = 0;
    while i < all_counts.len()
        invariant
            views == count_views(all_counts@),
            i <= all_counts@.len(),
            forall|w: Seq<char>| #[trigger] merged@.contains_key(w) == counted_anywhere(views.take(i as int), w),
            forall|w: Seq<char>| #[trigger] merged@.contains_key(w) ==> merged@[w] == total_count(views.take(i as int), w),
        decreases all_counts@.len() - i,
    {
        let counts = &all_counts[i];
        proof { use_type_invariant(counts); }
        let ghost es = counts.entries@;
        assert(views[i as int] == entries_map(es));
        let mut j: usize = 0;
        while j < counts.entries.len()
            invariant
                views == count_views(all_counts@),
                i < all_counts@.len(),
                es == counts.entries@,
                entry_words(es).no_duplicates(),
                views[i as int] == entries_map(es),
                j <= es.len(),
                forall|w: Seq<char>| #[trigger] merged@.contains_key(w)
                    == (counted_anywhere(views.take(i as int), w) || entries_map(es.take(j as int)).contains_key(w)),
                forall|w: Seq<char>| #[trigger] merged@.contains_key(w) ==> merged@[w]
                    == total_count(views.take(i as int), w) + count_in(entries_map(es.take(j as int)), w),
            decreases es.len() - j,
        {
            let entry = &counts.entries[j];
            let ghost w = entry.0@;
            proof {
                lemma_entries_take_step(es, j as int);
                lemma_total_step(views, i as int, w);
                lemma_total_prefix_bound(views, i + 1, w);
                assert(es.take(es.len() as int) =~= es);
                if j + 1 < es.len() {
                    lemma_entries_take_step(es, j + 1);
                }
                assert(count_in(entries_map(es), w) == entry.1) by {
                    lemma_entry_of(es, j as int);
                }
                if !merged@.contains_key(w) {
                    lemma_total_absent(views.take(i as int), w);
                }
                assert(count_in(merged@, w) == total_count(views.take(i as int), w));
            }
            let current = match merged.get(entry.0.as_str()) {
                Some(c) => c,
                None => 0,
            };
            let sum = match current.checked_add(entry.1) {
                Some(s) => s,
                None => {
                    assert(total_count(views, w) > usize::MAX);
                    return None;
                },
            };
            merged.insert(entry.0.clone(), sum);
            proof {
                assert forall|v: Seq<char>| #[trigger] merged@.contains_key(v)
                    == (counted_anywhere(views.take(i as int), v) || entries_map(es.take(j + 1)).contains_key(v)) by {
                }
                assert forall|v: Seq<char>| #[trigger] merged@.contains_key(v) implies merged@[v]
                    == total_count(views.take(i as int), v) + count_in(entries_map(es.take(j + 1)), v) by {
                }
            }
            j = j + 1;
        }
        proof {
            assert(es.take(es.len() as int) =~= es);
            assert forall|w: Seq<char>| #[trigger] merged@.contains_key(w) == counted_anywhere(views.take(i + 1), w) by {
                lemma_total_step(views, i as int, w);
            }
            assert forall|w: Seq<char>| #[trigger] merged@.contains_key(w) implies merged@[w] == total_count(views.take(i + 1), w) by {
                lemma_total_step(views, i as int, w);
            }
        }
        i = i + 1;
    }
    proof {
        assert(views.take(views.len() as int) =~= views);
        assert forall|w: Seq<char>| #[trigger] total_count(views, w) <= usize::MAX by {
            if !merged@.contains_key(w) {
                lemma_total_absent(views, w);
            }
        }
    }
    Some(merged)
}

/// The counts of all of `all_counts` added up word by word.
pub fn merge_counts(all_counts: Vec<WordCounts>) -> (r: WordCounts)
    requires
        forall|w: Seq<char>| #[trigger] total_count(count_views(all_counts@), w) <= usize::MAX,
    ensures
        forall|w: Seq<char>| #[trigger] r@.contains_key(w) == counted_anywhere(count_views(all_counts@), w),
        forall|w: Seq<char>| #[trigger] r@.contains_key(w) ==> r@[w] == total_count(count_views(all_counts@), w),
{
    let ghost views = count_views(all_counts@);
    match merge_counts_checked(all_counts) {
        Some(m) => m,
        None => {
            proof {
                let w = choose|w: Seq<char>| #[trigger] total_count(views, w) > usize::MAX;
                assert(total_count(views, w) <= usize::MAX);
            }
            WordCounts::new()
        },
    }
}

/// How many of the words have `w` as their lower-case form.
pub open spec fn occurrences(ws: Seq<Seq<char>>, w: Seq<char>) -> int
    decreases ws.len(),
{
    if ws.len() == 0 {
        0
    } else {
        occurrences(ws.drop_last(), w) + (if lowercase_text(ws.last()) == w { 1int } else { 0int })
    }
}

proof fn lemma_occurrences_bound(ws: Seq<Seq<char>>, w: Seq<char>)
    ensures
        0 <= occurrences(ws, w) <= ws.len(),
    decreases ws.len(),
{
    if ws.len() > 0 {
        lemma_occurrences_bound(ws.drop_last(), w);
    }
}

proof fn lemma_occurrences_push(ws: Seq<Seq<char>>, x: Seq<char>, w: Seq<char>)
    ensures
        occurrences(ws.push(x), w) == occurrences(ws, w) + (if lowercase_text(x) == w { 1int } else { 0int }),
{
    assert(ws.push(x).drop_last() =~= ws);
}

/// The counts hold, for each lower-case form, how many of the words have it.
pub open spec fn counts_words(m: Map<Seq<char>, usize>, ws: Seq<Seq<char>>) -> bool {
    &&& forall|w: Seq<char>| #[trigger] m.contains_key(w) == (occurrences(ws, w) > 0)
    &&& forall|w: Seq<char>| #[trigger] m.contains_key(w) ==> m[w] == occurrences(ws, w)
}

/// Counts `word` once more, by its lower-case form.
fn count_word(counts: &mut WordCounts, word: &str, Ghost(done): Ghost<Seq<Seq<char>>>)
    requires
        counts_words(old(counts)@, done),
        done.len() < usize::MAX,
    ensures
        counts_words(final(counts)@, done.push(word@)),
{
    let lower = to_lowercase(word);
    proof {
        lemma_occurrences_bound(done, lower@);
    }
    counts.add(lower, 1);
    proof {
        assert forall|w: Seq<char>| #[trigger] counts@.contains_key(w) == (occurrences(done.push(word@), w) > 0) by {
            lemma_occurrences_push(done, word@, w);
            lemma_occurrences_bound(done, w);
        }
        assert forall|w: Seq<char>| #[trigger] counts@.contains_key(w) implies counts@[w] == occurrences(done.push(word@), w) by {
            lemma_occurrences_push(done, word@, w);
            lemma_occurrences_bound(done, w);
        }
    }
}

/// How often each word of `content` occurs, by the lower-case form of the word.
pub fn word_frequencies(content: &str) -> (r: WordCounts)
    ensures
        counts_words(r@, words_of(content@)),
{
    let ghost s = content@;
    let cs = chars_of(content);
    let mut counts = WordCounts::new();
    let mut done: Ghost<Seq<Seq<char>>> = Ghost(Seq::empty());
    let mut start: Option<usize> = None;
    let mut i: usize = 0;
    while i < cs.len()
        invariant
            cs@ == s,
            s == content@,
            i <= cs.len(),
            counts_words(counts@, done@),
            start is None ==> words_upto(s, i as int) == done@ && (i == 0 || white_space(s[i - 1])),
            start matches Some(st) ==> st < i && words_upto(s, i as int) == done@.push(s.subrange(st as int, i as int))
                && !white_space(s[i - 1]),
        decreases cs.len() - i,
    {
        proof {
            lemma_words_len(s, i as int);
        }
        let c = cs[i];
        if is_white_space(c) {
            match start {
                Some(st) => {
                    let word = content.substring_char(st, i);
                    count_word(&mut counts, word, Ghost(done@));
                    proof {
                        done@ = done@.push(word@);
                    }
                    start = None;
                },
                None => {},
            }
        } else {
            match start {
                Some(st) => {
                    proof {
                        let prev = words_upto(s, i as int);
                        assert(prev.drop_last() =~= done@);
                        assert(prev.last().push(c) =~= s.subrange(st as int, i + 1));
                    }
                },
                None => {
                    assert(s.subrange(i as int, i + 1) =~= seq![c]);
                    start = Some(i);
                },
            }
        }
        i = i + 1;
    }
    proof {
        lemma_words_len(s, i as int);
    }
    match start {
        Some(st) => {
            let word = content.substring_char(st, i);
            count_word(&mut counts, word, Ghost(done@));
        },
        None => {},
    }
    counts
}

} // verus!
