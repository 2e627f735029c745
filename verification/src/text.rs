use vstd::prelude::*;

verus! {

/// Whether Unicode counts a character as numeric, as `char::is_numeric`
/// reports it.
pub uninterp spec fn unicode_numeric(c: char) -> bool;

/// Whether Unicode counts a character as alphabetic, as `char::is_alphabetic`
/// reports it.
pub uninterp spec fn unicode_alphabetic(c: char) -> bool;

/// Calls `char::is_numeric`. Nothing is proved of the answer: the contract
/// only gives it the name `unicode_numeric`.
#[verifier::external_body]
fn is_numeric(c: char) -> (r: bool)
    ensures
        r == unicode_numeric(c),
{
    c.is_numeric()
}

/// Calls `char::is_alphabetic`. Nothing is proved of the answer: the contract
/// only gives it the name `unicode_alphabetic`.
#[verifier::external_body]
fn is_alphabetic(c: char) -> (r: bool)
    ensures
        r == unicode_alphabetic(c),
{
    c.is_alphabetic()
}

/// The characters of a line that carry meaning; all others are passed over.
#[derive(Debug, Clone, Copy, PartialEq, Eq, Structural)]
pub enum CharClass {
    /// Numeric characters: what the plateau's line is read from.
    Numeric,
    /// Alphabetic and numeric characters: what a pose is read from.
    Alphanumeric,
    /// Alphabetic characters: what instructions are read from.
    Alphabetic,
}

impl CharClass {
    /// Whether a character belongs to the class.
    pub open spec fn holds(self, c: char) -> bool {
        match self {
            CharClass::Numeric => unicode_numeric(c),
            CharClass::Alphanumeric => unicode_alphabetic(c) || unicode_numeric(c),
            CharClass::Alphabetic => unicode_alphabetic(c),
        }
    }

    /// Whether a character belongs to the class.
    pub fn admits(self, c: char) -> (r: bool)
        ensures
            r == self.holds(c),
    {
        match self {
            CharClass::Numeric => is_numeric(c),
            CharClass::Alphanumeric => is_alphabetic(c) || is_numeric(c),
            CharClass::Alphabetic => is_alphabetic(c),
        }
    }
}

/// The characters of `s` that belong to `class`, in their order.
pub open spec fn kept(s: Seq<char>, class: CharClass) -> Seq<char> {
    s.filter(|c: char| class.holds(c))
}

/// The first position at or after `from` that holds a newline, or the length
/// of the text where no newline follows.
pub open spec fn line_end(s: Seq<char>, from: int) -> int
    decreases s.len() - from,
{
    if from >= s.len() || s[from] == '\n' {
        from
    } else {
        line_end(s, from + 1)
    }
}

/// Where line `k` begins when the text is cut at every newline: line 0 begins
/// at 0, and each further line one past the newline that ends the line before
/// it. The text has a line `k` exactly if this is at most its length.
pub open spec fn line_start(s: Seq<char>, k: nat) -> int
    decreases k,
{
    if k == 0 {
        0
    } else {
        line_end(s, line_start(s, (k - 1) as nat)) + 1
    }
}

/// Whether the text, cut at every newline, has a line `k`. A text that ends
/// in a newline has an empty last line.
pub open spec fn has_line(s: Seq<char>, k: nat) -> bool {
    line_start(s, k) <= s.len()
}

/// Line `k` of the text, without its newline.
pub open spec fn line(s: Seq<char>, k: nat) -> Seq<char>
    recommends
        has_line(s, k),
{
    s.subrange(line_start(s, k), line_end(s, line_start(s, k)))
}

/// The first line at or after line `from` that holds a character, or `None`
/// where every such line is empty or there is none.
pub open spec fn first_nonempty_line(s: Seq<char>, from: nat) -> Option<nat>
    decreases s.len() + 1 - from,
{
    if from > s.len() || !has_line(s, from) {
        None
    } else if line(s, from).len() > 0 {
        Some(from)
    } else {
        first_nonempty_line(s, from + 1)
    }
}

/// How many newlines the text holds.
pub open spec fn newline_count(s: Seq<char>) -> nat
    decreases s.len(),
{
    if s.len() == 0 {
        0
    } else if s.last() == '\n' {
        newline_count(s.drop_last()) + 1
    } else {
        newline_count(s.drop_last())
    }
}

/// How many lines the text counts when every newline ends a line and a last
/// line needs none: an empty text has no line, and a newline at the very end
/// opens no further one.
pub open spec fn line_count(s: Seq<char>) -> nat {
    if s.len() > 0 && s.last() != '\n' {
        newline_count(s) + 1
    } else {
        newline_count(s)
    }
}

/// A line ends within the text, at a newline or at the text's end, and holds
/// no newline itself.
pub proof fn lemma_line_end_bounds(s: Seq<char>, from: int)
    requires
        0 <= from <= s.len(),
    ensures
        from <= line_end(s, from) <= s.len(),
        line_end(s, from) < s.len() ==> s[line_end(s, from)] == '\n',
        forall|j: int| from <= j < line_end(s, from) ==> s[j] != '\n',
    decreases s.len() - from,
{
    if from < s.len() && s[from] != '\n' {
        lemma_line_end_bounds(s, from + 1);
    }
}

/// Later lines start later: between the starts of lines `j` and `k` lie at
/// least `k - j` characters.
pub proof fn lemma_line_start_increasing(s: Seq<char>, j: nat, k: nat)
    requires
        j <= k,
    ensures
        line_start(s, j) + (k - j) <= line_start(s, k),
        0 <= line_start(s, j),
        has_line(s, k) ==> has_line(s, j),
    decreases k,
{
    if k > 0 {
        let before = (k - 1) as nat;
        lemma_line_start_increasing(s, 0, before);
        lemma_line_end_at_least(s, line_start(s, before));
        if j < k {
            lemma_line_start_increasing(s, j, before);
        }
    }
}

/// A line never ends before the place where it starts.
pub proof fn lemma_line_end_at_least(s: Seq<char>, from: int)
    ensures
        from <= line_end(s, from),
    decreases s.len() - from,
{
    if !(from >= s.len() || s[from] == '\n') {
        lemma_line_end_at_least(s, from + 1);
    }
}

/// The text has at most as many newlines as characters.
pub proof fn lemma_newline_count_bound(s: Seq<char>)
    ensures
        newline_count(s) <= s.len(),
    decreases s.len(),
{
    if s.len() > 0 {
        lemma_newline_count_bound(s.drop_last());
    }
}

/// Text added after a newline leaves the lines before it where they end.
pub proof fn lemma_line_end_extended(a: Seq<char>, b: Seq<char>, from: int)
    requires
        0 <= from <= a.len(),
    ensures
        line_end(a + seq!['\n'] + b, from) == line_end(a, from),
    decreases a.len() - from,
{
    let s = a + seq!['\n'] + b;
    if from < a.len() {
        assert(s[from] == a[from]);
        if a[from] != '\n' {
            lemma_line_end_extended(a, b, from + 1);
        }
    } else {
        assert(s[from] == '\n');
    }
}

/// Text added after a newline leaves every line before it as it was: line `k`
/// of `a` is line `k` of `a`, a newline, and `b`.
pub proof fn lemma_line_extended(a: Seq<char>, b: Seq<char>, k: nat)
    requires
        has_line(a, k),
    ensures
        has_line(a + seq!['\n'] + b, k),
        line_start(a + seq!['\n'] + b, k) == line_start(a, k),
        line(a + seq!['\n'] + b, k) == line(a, k),
    decreases k,
{
    let s = a + seq!['\n'] + b;
    lemma_line_start_increasing(a, 0, k);
    if k > 0 {
        let before = (k - 1) as nat;
        lemma_line_start_increasing(a, before, k);
        lemma_line_extended(a, b, before);
        lemma_line_end_extended(a, b, line_start(a, before));
    }
    let start = line_start(a, k);
    lemma_line_end_extended(a, b, start);
    lemma_line_end_bounds(a, start);
    assert(s.subrange(start, line_end(a, start)) =~= a.subrange(start, line_end(a, start)));
}

/// What `first_nonempty_line` finds is the least line from `from` on that
/// holds a character; where it finds none, every line from `from` on is
/// empty.
pub proof fn lemma_first_nonempty_line(s: Seq<char>, from: nat)
    ensures
        match first_nonempty_line(s, from) {
            Some(k) => {
                &&& from <= k <= s.len()
                &&& has_line(s, k)
                &&& line(s, k).len() > 0
                &&& forall|j: nat| from <= j < k ==> (#[trigger] line(s, j)).len() == 0
            },
            None => forall|j: nat|
                from <= j && has_line(s, j) ==> (#[trigger] line(s, j)).len() == 0,
        },
    decreases s.len() + 1 - from,
{
    if from > s.len() || !has_line(s, from) {
        assert forall|j: nat| from <= j && has_line(s, j) implies (#[trigger] line(s, j)).len()
            == 0 by {
            lemma_line_start_increasing(s, from, j);
            lemma_line_start_increasing(s, 0, j);
        }
    } else if line(s, from).len() == 0 {
        lemma_first_nonempty_line(s, from + 1);
    }
}

/// Text added after a newline leaves the first line that holds a character
/// where it was.
pub proof fn lemma_first_nonempty_line_extended(a: Seq<char>, b: Seq<char>, from: nat)
    requires
        first_nonempty_line(a, from) is Some,
    ensures
        first_nonempty_line(a + seq!['\n'] + b, from) == first_nonempty_line(a, from),
    decreases a.len() + 1 - from,
{
    lemma_line_extended(a, b, from);
    if line(a, from).len() == 0 {
        lemma_first_nonempty_line_extended(a, b, from + 1);
    }
}

/// A line holds no newline.
pub proof fn lemma_line_without_newline(s: Seq<char>, k: nat)
    requires
        has_line(s, k),
    ensures
        forall|j: int| 0 <= j < line(s, k).len() ==> (#[trigger] line(s, k)[j]) != '\n',
{
    lemma_line_start_increasing(s, 0, k);
    lemma_line_end_bounds(s, line_start(s, k));
}

/// A text without a newline is its own first line.
pub proof fn lemma_single_line(a: Seq<char>)
    requires
        forall|j: int| 0 <= j < a.len() ==> a[j] != '\n',
    ensures
        line_end(a, 0) == a.len(),
        line(a, 0) == a,
{
    lemma_line_end_bounds(a, 0);
    assert(a.subrange(0, a.len() as int) =~= a);
}

/// Behind a given beginning, lines end where they end in the rest alone.
pub proof fn lemma_line_end_shifted(p: Seq<char>, r: Seq<char>, j: int)
    requires
        0 <= j,
    ensures
        line_end(p + r, p.len() + j) == p.len() + line_end(r, j),
    decreases r.len() - j,
{
    if j < r.len() {
        assert((p + r)[p.len() + j] == r[j]);
        if r[j] != '\n' {
            lemma_line_end_shifted(p, r, j + 1);
        }
    }
}

/// Of a text made of a first line `a`, a newline and a rest `r`, line 0 is
/// `a` and line `k + 1` is line `k` of `r`.
pub proof fn lemma_line_after_first(a: Seq<char>, r: Seq<char>, k: nat)
    requires
        forall|j: int| 0 <= j < a.len() ==> a[j] != '\n',
    ensures
        line(a + seq!['\n'] + r, 0) == a,
        line_start(a + seq!['\n'] + r, k + 1) == a.len() + 1 + line_start(r, k),
        has_line(a + seq!['\n'] + r, k + 1) == has_line(r, k),
        has_line(r, k) ==> line(a + seq!['\n'] + r, k + 1) == line(r, k),
    decreases k,
{
    let p = a + seq!['\n'];
    let s = p + r;
    lemma_single_line(a);
    lemma_line_end_extended(a, r, 0);
    assert(s.subrange(0, a.len() as int) =~= a);
    assert(line_start(s, (k + 1) as nat) == line_end(s, line_start(s, k)) + 1);
    if k > 0 {
        let before = (k - 1) as nat;
        lemma_line_after_first(a, r, before);
        lemma_line_start_increasing(r, 0, before);
        lemma_line_end_shifted(p, r, line_start(r, before));
        assert(line_start(r, k) == line_end(r, line_start(r, before)) + 1);
    }
    lemma_line_start_increasing(r, 0, k);
    let start = line_start(r, k);
    lemma_line_end_shifted(p, r, start);
    if has_line(r, k) {
        lemma_line_end_bounds(r, start);
        assert(s.subrange(p.len() + start, p.len() + line_end(r, start)) =~= r.subrange(
            start,
            line_end(r, start),
        ));
    }
}

/// A stretch of text without a newline adds nothing to the count.
pub proof fn lemma_newline_count_stretch(s: Seq<char>, a: int, b: int)
    requires
        0 <= a <= b <= s.len(),
        forall|j: int| a <= j < b ==> s[j] != '\n',
    ensures
        newline_count(s.take(b)) == newline_count(s.take(a)),
    decreases b - a,
{
    if a < b {
        assert(s.take(b).drop_last() =~= s.take(b - 1));
        lemma_newline_count_stretch(s, a, b - 1);
    }
}

/// A part of the text from its beginning holds no more newlines than the
/// whole.
pub proof fn lemma_newline_count_prefix(s: Seq<char>, a: int)
    requires
        0 <= a <= s.len(),
    ensures
        newline_count(s.take(a)) <= newline_count(s),
    decreases s.len() - a,
{
    if a < s.len() {
        assert(s.take(a + 1).drop_last() =~= s.take(a));
        lemma_newline_count_prefix(s, a + 1);
    } else {
        assert(s.take(a) =~= s);
    }
}

/// Exactly `k` newlines stand before line `k`.
pub proof fn lemma_newlines_before_line(s: Seq<char>, k: nat)
    requires
        has_line(s, k),
    ensures
        0 <= line_start(s, k) <= s.len(),
        newline_count(s.take(line_start(s, k))) == k,
    decreases k,
{
    if k > 0 {
        let before = (k - 1) as nat;
        lemma_line_start_increasing(s, before, k);
        lemma_newlines_before_line(s, before);
        let a = line_start(s, before);
        let e = line_end(s, a);
        lemma_line_end_bounds(s, a);
        lemma_newline_count_stretch(s, a, e);
        assert(s.take(e + 1).drop_last() =~= s.take(e));
    }
}

/// Cut at every newline, a text has a line `k` exactly if it holds at least
/// `k` newlines.
pub proof fn lemma_has_line_iff_newlines(s: Seq<char>, k: nat)
    ensures
        has_line(s, k) <==> k <= newline_count(s),
    decreases k,
{
    if has_line(s, k) {
        lemma_newlines_before_line(s, k);
        lemma_newline_count_prefix(s, line_start(s, k));
    }
    if 0 < k <= newline_count(s) {
        let before = (k - 1) as nat;
        lemma_has_line_iff_newlines(s, before);
        lemma_newlines_before_line(s, before);
        let a = line_start(s, before);
        let e = line_end(s, a);
        lemma_line_end_bounds(s, a);
        lemma_newline_count_stretch(s, a, e);
        if e == s.len() {
            assert(s.take(e) =~= s);
        }
    }
}

/// The characters of a string, one by one.
pub fn chars_of(s: &str) -> (v: Vec<char>)
    ensures
        v@ == s@,
{
    broadcast use vstd::string::axiom_spec_iter;

    let mut v: Vec<char> = Vec::new();
    for c in it: s.chars()
        invariant
            it.seq() == s@,
            v@ == s@.take(it.index() as int),
    {
        v.push(c);
    }
    assert(s@.take(s@.len() as int) =~= s@);
    v
}

/// Counts the lines of a text as `line_count` defines them.
pub fn count_lines(text: &[char]) -> (n: usize)
    ensures
        n == line_count(text@),
{
    let len: usize = text.len();
    if len == 0 {
        return 0;
    }
    let mut newlines: usize = 0;
    let mut i: usize = 0;
    while i < len
        invariant
            i <= len,
            len == text@.len(),
            newlines == newline_count(text@.take(i as int)),
            newlines <= i,
        decreases len - i,
    {
        proof {
            assert(text@.take(i + 1).drop_last() =~= text@.take(i as int));
            assert(text@.take(i + 1).last() == text@[i as int]);
        }
        if text[i] == '\n' {
            newlines += 1;
        }
        i += 1;
    }
    assert(text@.take(len as int) =~= text@);
    if text[len - 1] != '\n' {
        proof {
            lemma_newline_count_bound(text@.drop_last());
        }
        newlines + 1
    } else {
        newlines
    }
}

/// Finds where the line that starts at `from` ends.
pub fn scan_line(text: &[char], from: usize) -> (end: usize)
    requires
        from <= text@.len(),
    ensures
        end == line_end(text@, from as int),
        from <= end <= text@.len(),
{
    let len: usize = text.len();
    let mut i: usize = from;
    while i < len && text[i] != '\n'
        invariant
            from <= i <= len,
            len == text@.len(),
            line_end(text@, from as int) == line_end(text@, i as int),
        decreases len - i,
    {
        i += 1;
    }
    i
}

/// Finds line `k` of a text cut at every newline: where it starts and where
/// it ends, or `None` where the text has no such line.
pub fn locate_line(text: &[char], k: usize) -> (r: Option<(usize, usize)>)
    ensures
        match r {
            Some((start, end)) => {
                &&& has_line(text@, k as nat)
                &&& start == line_start(text@, k as nat)
                &&& end == line_end(text@, start as int)
                &&& start <= end <= text@.len()
            },
            None => !has_line(text@, k as nat),
        },
{
    let len: usize = text.len();
    let mut start: usize = 0;
    let mut j: usize = 0;
    while j < k
        invariant
            j <= k,
            len == text@.len(),
            start == line_start(text@, j as nat),
            start <= len,
        decreases k - j,
    {
        let end: usize = scan_line(text, start);
        if end >= len {
            proof {
                lemma_line_start_increasing(text@, (j + 1) as nat, k as nat);
            }
            return None;
        }
        start = end + 1;
        j += 1;
    }
    let end: usize = scan_line(text, start);
    Some((start, end))
}

/// Finds the first line of a text that holds a character.
pub fn first_line_with_text(text: &[char]) -> (r: Option<usize>)
    ensures
        match r {
            Some(k) => first_nonempty_line(text@, 0) == Some(k as nat) && k <= text@.len(),
            None => first_nonempty_line(text@, 0) is None,
        },
{
    let len: usize = text.len();
    let mut k: usize = 0;
    let mut start: usize = 0;
    let mut end: usize = scan_line(text, 0);
    while end == start && end < len
        invariant
            len == text@.len(),
            k <= start <= end <= len,
            start == line_start(text@, k as nat),
            end == line_end(text@, start as int),
            first_nonempty_line(text@, k as nat) == first_nonempty_line(text@, 0),
        decreases len - start,
    {
        start = end + 1;
        k += 1;
        end = scan_line(text, start);
    }
    if end > start {
        Some(k)
    } else {
        assert(!has_line(text@, (k + 1) as nat));
        assert(first_nonempty_line(text@, (k + 1) as nat) is None);
        None
    }
}

/// Copies out of `text[from..to]` the characters that belong to `class`.
pub fn keep(text: &[char], from: usize, to: usize, class: CharClass) -> (out: Vec<char>)
    requires
        from <= to <= text@.len(),
    ensures
        out@ == kept(text@.subrange(from as int, to as int), class),
{
    let ghost part = text@.subrange(from as int, to as int);
    let ghost pred = |c: char| class.holds(c);
    let mut out: Vec<char> = Vec::new();
    let mut i: usize = from;
    proof {
        reveal(Seq::filter);
        assert(part.take(0).filter(pred) =~= Seq::<char>::empty());
    }
    while i < to
        invariant
            from <= i <= to <= text@.len(),
            part == text@.subrange(from as int, to as int),
            pred == (|c: char| class.holds(c)),
            out@ == part.take(i - from).filter(pred),
        decreases to - i,
    {
        let c: char = text[i];
        proof {
            let before = part.take(i - from);
            assert(part.take(i - from + 1) =~= before.push(c));
            before.lemma_filter_push(c, pred);
        }
        if class.admits(c) {
            out.push(c);
        }
        i += 1;
    }
    assert(part.take(to - from) =~= part);
    out
}

} // verus!
