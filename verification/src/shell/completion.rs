use crate::text::{
    chars_of, find_name, is_whitespace, push_char, sort_names, split_whitespace, starts_with,
    str_eq, text_le, texts, whitespace, words_of,
};
use vstd::string::*;
use vstd::prelude::*;

verus! {

/// Finds the word that the cursor stands in or right behind.
///
/// Positions count characters. A cursor beyond the end of the line stands at
/// its end. The word reaches from the character after the last whitespace
/// before the cursor to the first whitespace at or after it. The result is
/// the position where the word starts, and the word.
pub fn find_word_at_pos(line: &str, pos: usize) -> (found: (usize, String))
    ensures
        ({
            let cursor = if pos <= line@.len() { pos as int } else { line@.len() as int };
            let start = found.0 as int;
            let end = start + found.1@.len();
            &&& 0 <= start <= cursor <= end <= line@.len()
            &&& found.1@ == line@.subrange(start, end)
            &&& forall|j: int| start <= j < end ==> !whitespace(#[trigger] line@[j])
            &&& start == 0 || whitespace(line@[start - 1])
            &&& end == line@.len() || whitespace(line@[end])
        }),
{
    let chars = chars_of(line);
    let cursor = if pos <= chars.len() { pos } else { chars.len() };
    let mut start = cursor;
    while start > 0 && !is_whitespace(chars[start - 1])
        invariant
            start <= cursor <= chars.len(),
            forall|j: int| start <= j < cursor ==> !whitespace(#[trigger] chars@[j]),
        decreases start,
    {
        start -= 1;
    }
    let mut word = String::new();
    let mut end = start;
    while end < chars.len() && (end < cursor || !is_whitespace(chars[end]))
        invariant
            start <= end <= chars.len(),
            start <= cursor <= chars.len(),
            chars@ == line@,
            word@ == chars@.subrange(start as int, end as int),
            forall|j: int| start <= j < cursor ==> !whitespace(#[trigger] chars@[j]),
            forall|j: int| start <= j < end ==> !whitespace(#[trigger] chars@[j]),
        decreases chars.len() - end,
    {
        push_char(&mut word, chars[end]);
        assert(word@ =~= chars@.subrange(start as int, end + 1));
        end += 1;
    }
    (start, word)
}

/// How many characters `a` and `b` share from position `from` on, counted
/// from the start.
pub open spec fn match_len(a: Seq<char>, b: Seq<char>, from: int) -> int
    decreases a.len() - from,
{
    if 0 <= from < a.len() && from < b.len() && a[from] == b[from] {
        match_len(a, b, from + 1)
    } else {
        from
    }
}

/// The longest text that both `a` and `b` start with.
pub open spec fn shared(a: Seq<char>, b: Seq<char>) -> Seq<char> {
    a.subrange(0, match_len(a, b, 0))
}

/// The longest text that the first `n` of `strings` all start with.
pub open spec fn shared_by(strings: Seq<Seq<char>>, n: int) -> Seq<char>
    recommends
        1 <= n <= strings.len(),
    decreases n,
{
    if n <= 1 {
        strings[0]
    } else {
        shared(shared_by(strings, n - 1), strings[n - 1])
    }
}

/// `match_len` stops within both texts, on the first position where they
/// differ or one of them ends.
pub proof fn lemma_match_len(a: Seq<char>, b: Seq<char>, from: int)
    requires
        0 <= from <= a.len(),
        from <= b.len(),
    ensures
        from <= match_len(a, b, from) <= a.len(),
        match_len(a, b, from) <= b.len(),
        forall|j: int| from <= j < match_len(a, b, from) ==> a[j] == b[j],
        match_len(a, b, from) == a.len() || match_len(a, b, from) == b.len() || a[match_len(
            a,
            b,
            from,
        )] != b[match_len(a, b, from)],
    decreases a.len() - from,
{
    if from < a.len() && from < b.len() && a[from] == b[from] {
        lemma_match_len(a, b, from + 1);
    }
}

/// What all of the first `n` strings start with, each of them starts with.
pub proof fn lemma_shared_is_prefix(strings: Seq<Seq<char>>, n: int, i: int)
    requires
        1 <= n <= strings.len(),
        0 <= i < n,
    ensures
        shared_by(strings, n).is_prefix_of(strings[i]),
    decreases n,
{
    if n > 1 {
        let before = shared_by(strings, n - 1);
        lemma_match_len(before, strings[n - 1], 0);
        let now = shared_by(strings, n);
        if i < n - 1 {
            lemma_shared_is_prefix(strings, n - 1, i);
            assert(now =~= strings[i].subrange(0, now.len() as int));
        } else {
            assert(now =~= strings[i].subrange(0, now.len() as int));
        }
    } else {
        assert(strings[0] =~= strings[0].subrange(0, strings[0].len() as int));
    }
}

/// The longest text that both `a` and `b` start with.
fn common_start(a: &str, b: &str) -> (p: String)
    ensures
        p@ == shared(a@, b@),
{
    let x = chars_of(a);
    let y = chars_of(b);
    let mut p = String::new();
    let mut k: usize = 0;
    while k < x.len() && k < y.len() && x[k] == y[k]
        invariant
            k <= x.len(),
            k <= y.len(),
            x@ == a@,
            y@ == b@,
            match_len(a@, b@, 0) == match_len(a@, b@, k as int),
            p@ == a@.subrange(0, k as int),
        decreases x.len() - k,
    {
        push_char(&mut p, x[k]);
        assert(p@ =~= a@.subrange(0, k + 1));
        k += 1;
    }
    p
}

/// The longest text that all of `strings` start with. There is none where
/// there are no strings, and none is reported where two or more strings
/// share no start at all.
pub fn find_longest_common_prefix(strings: &Vec<String>) -> (prefix: Option<String>)
    ensures
        strings.len() == 0 ==> prefix is None,
        strings.len() == 1 ==> (prefix matches Some(p) && p@ == strings[0]@),
        strings.len() >= 2 ==> match prefix {
            Some(p) => p@.len() > 0 && p@ == shared_by(
                strings@.map_values(|s: String| s@),
                strings.len() as int,
            ),
            None => shared_by(strings@.map_values(|s: String| s@), strings.len() as int).len()
                == 0,
        },
{
    if strings.len() == 0 {
        return None;
    }
    if strings.len() == 1 {
        return Some(strings[0].clone());
    }
    let ghost texts = strings@.map_values(|s: String| s@);
    let mut prefix = strings[0].clone();
    let mut i: usize = 1;
    while i < strings.len()
        invariant
            1 <= i <= strings.len(),
            texts == strings@.map_values(|s: String| s@),
            prefix@ == shared_by(texts, i as int),
        decreases strings.len() - i,
    {
        assert(texts[i as int] == strings[i as int]@);
        prefix = common_start(prefix.as_str(), strings[i].as_str());
        i += 1;
    }
    if prefix.as_str().is_empty() {
        None
    } else {
        Some(prefix)
    }
}

/// One candidate of a completion: what is shown, and what is put on the
/// line where it is chosen.
pub struct Pair {
    pub display: String,
    pub replacement: String,
}

/// A candidate as two texts: what is shown, and what is put on the line.
pub open spec fn pair_text(pair: Pair) -> (Seq<char>, Seq<char>) {
    (pair.display@, pair.replacement@)
}

/// The names that `word` can be completed to.
pub open spec fn completes(word: Seq<char>, name: Seq<char>) -> bool {
    word.is_prefix_of(name)
}

/// `names` holds exactly those of `pool` that `word` can be completed to.
pub open spec fn collects(names: Seq<Seq<char>>, word: Seq<char>, pool: Seq<Seq<char>>) -> bool {
    forall|n: Seq<char>| #[trigger] names.contains(n) <==> completes(word, n) && pool.contains(n)
}

proof fn lemma_collect_step(
    before: Seq<Seq<char>>,
    after: Seq<Seq<char>>,
    word: Seq<char>,
    pool: Seq<Seq<char>>,
    name: Seq<char>,
)
    requires
        collects(before, word, pool),
        before.no_duplicates(),
        after == if completes(word, name) && !before.contains(name) {
            before.push(name)
        } else {
            before
        },
    ensures
        collects(after, word, pool.push(name)),
        after.no_duplicates(),
{
    assert forall|n: Seq<char>| #[trigger]
        after.contains(n) <==> completes(word, n) && pool.push(name).contains(n) by {
        lemma_contains_push(pool, name, n);
        lemma_contains_push(before, name, n);
        assert(before.contains(n) <==> completes(word, n) && pool.contains(n));
    }
    if completes(word, name) && !before.contains(name) {
        assert forall|j: int| 0 <= j < before.len() implies before[j] != name by {
            assert(before.contains(before[j]));
        }
    }
}

/// Adds to `names` those of `pool` that start with `word` and are not among
/// them yet.
fn collect_matches(names: &mut Vec<String>, word: &str, pool: &Vec<String>, Ghost(seen): Ghost<
    Seq<Seq<char>>,
>)
    requires
        collects(texts(old(names)@), word@, seen),
        texts(old(names)@).no_duplicates(),
    ensures
        collects(texts(final(names)@), word@, seen + texts(pool@)),
        texts(final(names)@).no_duplicates(),
{
    let mut i: usize = 0;
    assert(seen + texts(pool@).subrange(0, 0) =~= seen);
    while i < pool.len()
        invariant
            i <= pool.len(),
            texts(names@).no_duplicates(),
            collects(texts(names@), word@, seen + texts(pool@).subrange(0, i as int)),
        decreases pool.len() - i,
    {
        let ghost before = texts(names@);
        let ghost name = pool[i as int]@;
        assert(texts(pool@)[i as int] == name);
        assert(seen + texts(pool@).subrange(0, i + 1) =~= (seen + texts(pool@).subrange(
            0,
            i as int,
        )).push(name));
        let is_new = find_name(names, pool[i].as_str()).is_none();
        proof {
            if is_new {
                assert forall|j: int| 0 <= j < before.len() implies before[j] != name by {
                    assert(before[j] == names[j]@);
                }
            } else {
                let k = choose|k: int| 0 <= k < names.len() && names[k]@ == name;
                assert(before[k] == name);
            }
        }
        if starts_with(pool[i].as_str(), word) && is_new {
            names.push(pool[i].clone());
            assert(texts(names@) =~= before.push(name));
        }
        proof {
            lemma_collect_step(
                before,
                texts(names@),
                word@,
                seen + texts(pool@).subrange(0, i as int),
                name,
            );
        }
        i += 1;
    }
    assert(texts(pool@).subrange(0, pool.len() as int) =~= texts(pool@));
}

/// Collects the command names that start with `word`: the shell's own
/// commands and the programs found, each name once, in ascending order.
pub fn command_matches(word: &str, builtins: &Vec<String>, executables: &Vec<String>) -> (names:
    Vec<String>)
    ensures
        texts(names@).no_duplicates(),
        forall|i: int, j: int|
            0 <= i < j < names.len() ==> text_le(#[trigger] names[i]@, #[trigger] names[j]@),
        collects(texts(names@), word@, texts(builtins@) + texts(executables@)),
{
    let mut names: Vec<String> = Vec::new();
    assert(collects(texts(names@), word@, Seq::<Seq<char>>::empty()));
    collect_matches(&mut names, word, builtins, Ghost(Seq::empty()));
    assert(Seq::<Seq<char>>::empty() + texts(builtins@) =~= texts(builtins@));
    collect_matches(&mut names, word, executables, Ghost(texts(builtins@)));
    let ghost unsorted = texts(names@);
    sort_names(&mut names);
    proof {
        lemma_same_elements(unsorted, texts(names@));
        assert forall|n: Seq<char>| #[trigger]
            texts(names@).contains(n) <==> completes(word@, n) && (texts(builtins@) + texts(
                executables@,
            )).contains(n) by {
            assert(unsorted.contains(n) <==> texts(names@).contains(n));
        }
    }
    names
}

proof fn lemma_contains_push(s: Seq<Seq<char>>, last: Seq<char>, n: Seq<char>)
    ensures
        s.push(last).contains(n) <==> s.contains(n) || n == last,
{
    if s.contains(n) {
        let k = choose|k: int| 0 <= k < s.len() && s[k] == n;
        assert(s.push(last)[k] == n);
    }
    if n == last {
        assert(s.push(last)[s.len() as int] == n);
    }
    if s.push(last).contains(n) {
        let k = choose|k: int| 0 <= k < s.push(last).len() && s.push(last)[k] == n;
        if k < s.len() {
            assert(s[k] == n);
        }
    }
}

proof fn lemma_same_elements(a: Seq<Seq<char>>, b: Seq<Seq<char>>)
    requires
        a.no_duplicates(),
        a.to_multiset() == b.to_multiset(),
    ensures
        b.no_duplicates(),
        forall|n: Seq<char>| #[trigger] a.contains(n) <==> b.contains(n),
{
    a.lemma_multiset_has_no_duplicates();
    b.lemma_multiset_has_no_duplicates_conv();
    assert forall|n: Seq<char>| a.contains(n) <==> b.contains(n) by {
        vstd::seq_lib::to_multiset_contains(a, n);
        vstd::seq_lib::to_multiset_contains(b, n);
    }
}

/// What the completer remembers between two presses of the TAB key: the
/// word it could not complete, and how often TAB was pressed on it.
pub struct TabState {
    last_word: Option<String>,
    tab_count: usize,
}

/// What the completer answers to one press of the TAB key.
pub struct Completion {
    /// The candidates to offer.
    pub candidates: Vec<Pair>,
    /// Whether to ring the bell.
    pub ring_bell: bool,
    /// The names to list below the line, if they are to be listed.
    pub list: Option<Vec<String>>,
}

impl TabState {
    /// The word that TAB was last pressed on without effect, if any.
    pub closed spec fn word(&self) -> Option<Seq<char>> {
        match self.last_word {
            Some(w) => Some(w@),
            None => None,
        }
    }

    /// A word is remembered after one press, and none is after none.
    pub closed spec fn wf(&self) -> bool {
        match self.last_word {
            Some(_) => self.tab_count == 1,
            None => self.tab_count == 0,
        }
    }

    /// Nothing remembered.
    pub fn new() -> (state: TabState)
        ensures
            state.wf(),
            state.word() is None,
    {
        TabState { last_word: None, tab_count: 0 }
    }

    fn reset(&mut self)
        ensures
            final(self).wf(),
            final(self).word() is None,
    {
        self.last_word = None;
        self.tab_count = 0;
    }

    /// Counts one press of TAB on `word`, and says whether it is the second
    /// in a row. The first press remembers the word; the second forgets
    /// it.
    fn press(&mut self, word: &str) -> (second: bool)
        requires
            old(self).wf(),
        ensures
            final(self).wf(),
            second == (old(self).word() == Some(word@)),
            final(self).word() == if second { None::<Seq<char>> } else { Some(word@) },
    {
        let same = match &self.last_word {
            Some(stored) => str_eq(stored.as_str(), word),
            None => false,
        };
        if same {
            self.tab_count = self.tab_count + 1;
            self.reset();
            true
        } else {
            self.last_word = Some(word.to_owned());
            self.tab_count = 1;
            false
        }
    }
}

/// Whether some name is longer than `prefix` and starts with it.
pub open spec fn some_name_goes_on(names: Seq<Seq<char>>, prefix: Seq<char>) -> bool {
    exists|i: int|
        0 <= i < names.len() && (#[trigger] names[i]).len() > prefix.len() && prefix.is_prefix_of(
            names[i],
        )
}

fn goes_on(names: &Vec<String>, prefix: &str) -> (r: bool)
    ensures
        r == some_name_goes_on(texts(names@), prefix@),
{
    let n = prefix.unicode_len();
    let mut i: usize = 0;
    while i < names.len()
        invariant
            i <= names.len(),
            n == prefix@.len(),
            forall|j: int|
                0 <= j < i ==> !((#[trigger] texts(names@)[j]).len() > prefix@.len()
                    && prefix@.is_prefix_of(texts(names@)[j])),
        decreases names.len() - i,
    {
        assert(texts(names@)[i as int] == names[i as int]@);
        if names[i].as_str().unicode_len() > n && starts_with(names[i].as_str(), prefix) {
            return true;
        }
        i += 1;
    }
    false
}

/// The text that two or more names have in common beyond `word`, if they
/// have any.
pub open spec fn common_beyond(word: Seq<char>, names: Seq<Seq<char>>) -> Option<Seq<char>> {
    let common = shared_by(names, names.len() as int);
    if names.len() > 1 && common.len() > word.len() {
        Some(common)
    } else {
        None
    }
}

fn with_blank(name: &str) -> (r: String)
    ensures
        r@ == name@ + " "@,
{
    let mut r = name.to_owned();
    r.append(" ");
    r
}

/// Decides what one press of TAB on `word` gives, where `names` are the
/// command names that `word` can be completed to.
///
/// One name is offered with a blank behind it. Several names are completed
/// as far as they agree. Where they agree no further than `word`, the first
/// press rings the bell and the second lists the names. Lengths count
/// characters.
pub fn choose_completion(word: &str, names: Vec<String>, state: &mut TabState) -> (r: Completion)
    requires
        old(state).wf(),
    ensures
        final(state).wf(),
        names.len() == 0 ==> r.candidates.len() == 0 && !r.ring_bell && r.list is None
            && final(state).word() == old(state).word(),
        names.len() == 1 ==> r.candidates@.map_values(|p: Pair| pair_text(p)) == seq![
            (names[0]@, names[0]@ + " "@),
        ] && !r.ring_bell && r.list is None && final(state).word() is None,
        names.len() > 1 ==> match common_beyond(word@, texts(names@)) {
            Some(common) => {
                let further = some_name_goes_on(texts(names@), common);
                &&& r.candidates@.map_values(|p: Pair| pair_text(p)) == seq![
                    (common, if further { common } else { common + " "@ }),
                ]
                &&& !r.ring_bell
                &&& r.list is None
                &&& final(state).word() == if further {
                    old(state).word()
                } else {
                    None::<Seq<char>>
                }
            },
            None => {
                let second = old(state).word() == Some(word@);
                &&& r.candidates.len() == 0
                &&& r.ring_bell == !second
                &&& r.list is Some == second
                &&& second ==> r.list == Some(names)
                &&& final(state).word() == if second { None::<Seq<char>> } else { Some(word@) }
            },
        },
{
    if names.len() > 1 {
        match find_longest_common_prefix(&names) {
            Some(common_prefix) => {
                if common_prefix.as_str().unicode_len() > word.unicode_len() {
                    let further = goes_on(&names, common_prefix.as_str());
                    let replacement = if further {
                        common_prefix.clone()
                    } else {
                        with_blank(common_prefix.as_str())
                    };
                    if !further {
                        state.reset();
                    }
                    let mut candidates: Vec<Pair> = Vec::new();
                    candidates.push(Pair { display: common_prefix, replacement });
                    assert(candidates@.map_values(|p: Pair| pair_text(p)) =~= seq![
                        pair_text(candidates[0]),
                    ]);
                    return Completion { candidates, ring_bell: false, list: None };
                }
            },
            None => {},
        }
        let second = state.press(word);
        if second {
            Completion { candidates: Vec::new(), ring_bell: false, list: Some(names) }
        } else {
            Completion { candidates: Vec::new(), ring_bell: true, list: None }
        }
    } else if names.len() == 1 {
        state.reset();
        let mut candidates: Vec<Pair> = Vec::new();
        let replacement = with_blank(names[0].as_str());
        candidates.push(Pair { display: names[0].clone(), replacement });
        assert(candidates@.map_values(|p: Pair| pair_text(p)) =~= seq![pair_text(candidates[0])]);
        Completion { candidates, ring_bell: false, list: None }
    } else {
        Completion { candidates: Vec::new(), ring_bell: false, list: None }
    }
}

/// What an earlier line suggests as the next word: the word that follows
/// `words` in it, where the line starts with the first of `words`, holds
/// all of them as its first words, and that next word starts with `word`.
pub open spec fn suggestion(entry: Seq<char>, words: Seq<Seq<char>>, word: Seq<char>) -> Option<
    Seq<char>,
>
    recommends
        words.len() > 0,
{
    let entry_words = words_of(entry);
    if words[0].is_prefix_of(entry) && entry_words.len() > words.len() && entry_words.subrange(
        0,
        words.len() as int,
    ) == words && word.is_prefix_of(entry_words[words.len() as int]) {
        Some(entry_words[words.len() as int])
    } else {
        None
    }
}

/// The suggestions of the first `n` lines of `history`, each once, in the
/// order of the lines.
pub open spec fn suggestions(
    history: Seq<Seq<char>>,
    n: int,
    words: Seq<Seq<char>>,
    word: Seq<char>,
) -> Seq<Seq<char>>
    decreases n,
{
    if n <= 0 {
        Seq::empty()
    } else {
        let before = suggestions(history, n - 1, words, word);
        match suggestion(history[n - 1], words, word) {
            Some(next) => if before.contains(next) {
                before
            } else {
                before.push(next)
            },
            None => before,
        }
    }
}

/// Whether the first words of `entry_words` are `words`.
fn starts_with_words(entry_words: &Vec<String>, words: &Vec<String>) -> (r: bool)
    requires
        entry_words.len() >= words.len(),
    ensures
        r == (texts(entry_words@).subrange(0, words.len() as int) == texts(words@)),
{
    let mut i: usize = 0;
    while i < words.len()
        invariant
            i <= words.len() <= entry_words.len(),
            forall|j: int| 0 <= j < i ==> entry_words[j]@ == words[j]@,
        decreases words.len() - i,
    {
        if !str_eq(words[i].as_str(), entry_words[i].as_str()) {
            assert(texts(entry_words@).subrange(0, words.len() as int)[i as int] != texts(
                words@,
            )[i as int]);
            return false;
        }
        i += 1;
    }
    assert(texts(entry_words@).subrange(0, words.len() as int) =~= texts(words@));
    true
}

/// Suggests the next word of a command from the lines entered before.
/// `words` are the words in front of the cursor's word, the command's name
/// first.
pub fn complete_argument(words: &Vec<String>, word: &str, history: &Vec<String>) -> (r: Vec<Pair>)
    requires
        words.len() > 0,
    ensures
        r@.map_values(|p: Pair| p.display@) == suggestions(
            texts(history@),
            history.len() as int,
            texts(words@),
            word@,
        ),
        forall|i: int| 0 <= i < r.len() ==> (#[trigger] r[i]).replacement@ == r[i].display@,
{
    let mut found: Vec<Pair> = Vec::new();
    let mut seen: Vec<String> = Vec::new();
    let mut i: usize = 0;
    assert(found@.map_values(|p: Pair| p.display@) =~= Seq::<Seq<char>>::empty());
    while i < history.len()
        invariant
            i <= history.len(),
            words.len() > 0,
            found@.map_values(|p: Pair| p.display@) == suggestions(
                texts(history@),
                i as int,
                texts(words@),
                word@,
            ),
            texts(seen@) == found@.map_values(|p: Pair| p.display@),
            forall|j: int| 0 <= j < found.len() ==> (#[trigger] found[j]).replacement@
                == found[j].display@,
        decreases history.len() - i,
    {
        let entry = history[i].as_str();
        assert(texts(history@)[i as int] == entry@);
        assert(texts(words@)[0] == words[0]@);
        if starts_with(entry, words[0].as_str()) {
            let entry_words = split_whitespace(entry);
            if entry_words.len() > words.len() && starts_with_words(&entry_words, words) {
                let next_arg = &entry_words[words.len()];
                assert(texts(entry_words@)[words.len() as int] == next_arg@);
                let is_new = find_name(&seen, next_arg.as_str()).is_none();
                proof {
                    let before = texts(seen@);
                    if is_new {
                        assert forall|j: int| 0 <= j < before.len() implies before[j]
                            != next_arg@ by {
                            assert(before[j] == seen[j]@);
                        }
                    } else {
                        let k = choose|k: int| 0 <= k < seen.len() && seen[k]@ == next_arg@;
                        assert(before[k] == next_arg@);
                    }
                }
                if starts_with(next_arg.as_str(), word) && is_new {
                    let ghost shown = found@.map_values(|p: Pair| p.display@);
                    let ghost known = texts(seen@);
                    seen.push(next_arg.clone());
                    found.push(Pair { display: next_arg.clone(), replacement: next_arg.clone() });
                    assert(found@.map_values(|p: Pair| p.display@) =~= shown.push(next_arg@));
                    assert(texts(seen@) =~= known.push(next_arg@));
                }
            }
        }
        i += 1;
    }
    found
}

} // verus!
