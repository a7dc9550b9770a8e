use vstd::prelude::*;
use vstd::string::*;

verus! {

/// Half-open interval `[start, end)` of character offsets into the edited line.
#[derive(Clone, Copy, Debug, PartialEq, Eq, Structural)]
pub struct Span {
    pub start: usize,
    pub end: usize,
}

impl Span {
    pub fn new(start: usize, end: usize) -> (r: Span)
        requires
            start <= end,
        ensures
            r.start == start,
            r.end == end,
    {
        Span { start, end }
    }
}

/// One candidate completion.
#[derive(Clone, Debug)]
pub struct Suggestion {
    /// Text shown in the menu and put into the line on acceptance
    pub value: String,
    /// Optional text shown beside the value
    pub description: Option<String>,
    /// Payload carried for the host, never read here
    pub extra: Option<Vec<String>>,
    /// Part of the line that the value replaces
    pub span: Span,
    /// Whether a space follows the value on acceptance
    pub append_whitespace: bool,
}

/// Source of suggestions for the text of a line and an offset in it.
pub trait Completer {
    fn complete(&mut self, line: &str, pos: usize) -> Vec<Suggestion>;
}

/// The edited line and the insertion point in it, both in characters.
pub struct Editor {
    pub buffer: String,
    pub insertion_point: usize,
}

/// `s` with its part `[start, end)` replaced by `text`.
pub open spec fn splice(s: Seq<char>, start: int, end: int, text: Seq<char>) -> Seq<char> {
    s.subrange(0, start) + text + s.subrange(end, s.len() as int)
}

/// `s` with every line feed turned into a space.
pub open spec fn flatten_spec(s: Seq<char>) -> Seq<char> {
    s.map_values(|c: char| if c == '\n' { ' ' } else { c })
}

/// The first `n` characters of `a` are those of `b`.
pub open spec fn shares_prefix(a: Seq<char>, b: Seq<char>, n: nat) -> bool {
    n <= a.len() && n <= b.len() && a.subrange(0, n as int) == b.subrange(0, n as int)
}

/// `n` is the length of the longest common prefix of `a` and `b`.
pub open spec fn is_lcp(a: Seq<char>, b: Seq<char>, n: nat) -> bool {
    shares_prefix(a, b, n) && (n == a.len() || n == b.len() || a[n as int] != b[n as int])
}

/// The first `n` characters of the first value start every value of `vals`.
pub open spec fn common_to_all(vals: Seq<Seq<char>>, n: nat) -> bool {
    forall|k: int| 0 <= k < vals.len() ==> shares_prefix(vals[0], #[trigger] vals[k], n)
}

/// `n` is the length of the longest prefix shared by all of `vals`.
pub open spec fn is_common_prefix_len(vals: Seq<Seq<char>>, n: nat) -> bool {
    vals.len() > 0 && common_to_all(vals, n) && !common_to_all(vals, n + 1)
}

/// The values of a list of suggestions.
pub open spec fn values_of(s: Seq<Suggestion>) -> Seq<Seq<char>> {
    s.map_values(|x: Suggestion| x.value@)
}

impl Editor {
    pub fn new() -> (r: Editor)
        ensures
            r.buffer@ == Seq::<char>::empty(),
            r.insertion_point == 0,
    {
        Editor { buffer: String::new(), insertion_point: 0 }
    }

    /// Replaces the whole line and puts the insertion point at its end.
    pub fn set_buffer(&mut self, buffer: String)
        ensures
            final(self).buffer@ == buffer@,
            final(self).insertion_point == buffer@.len(),
    {
        let n = buffer.as_str().unicode_len();
        self.buffer = buffer;
        self.insertion_point = n;
    }

    pub fn get_buffer(&self) -> (r: &str)
        ensures
            r@ == self.buffer@,
    {
        self.buffer.as_str()
    }

    pub fn insertion_point(&self) -> (r: usize)
        ensures
            r == self.insertion_point,
    {
        self.insertion_point
    }

    pub fn set_insertion_point(&mut self, offset: usize)
        ensures
            final(self).insertion_point == offset,
            final(self).buffer@ == old(self).buffer@,
    {
        self.insertion_point = offset;
    }

    /// Length of the line in characters.
    pub fn len(&self) -> (r: usize)
        ensures
            r == self.buffer@.len(),
    {
        self.buffer.as_str().unicode_len()
    }

    pub fn is_cursor_at_buffer_end(&self) -> (r: bool)
        ensures
            r == (self.insertion_point == self.buffer@.len()),
    {
        self.insertion_point == self.len()
    }

    /// Replaces the characters `[start, end)` of the line by `text`; the
    /// insertion point stays where it was.
    pub fn replace_range(&mut self, start: usize, end: usize, text: &str)
        requires
            start <= end <= old(self).buffer@.len(),
        ensures
            final(self).buffer@ == splice(old(self).buffer@, start as int, end as int, text@),
            final(self).insertion_point == old(self).insertion_point,
    {
        let len = self.len();
        let mut out = String::from_str(self.buffer.as_str().substring_char(0, start));
        out.append(text);
        out.append(self.buffer.as_str().substring_char(end, len));
        self.buffer = out;
    }
}

/// Copy of `s` with every line feed turned into a space.
pub fn flatten_newlines(s: &str) -> (r: String)
    ensures
        r@ == flatten_spec(s@),
{
    let n = s.unicode_len();
    let mut out = String::new();
    let mut i: usize = 0;
    while i < n
        invariant
            n == s@.len(),
            i <= n,
            out@ == flatten_spec(s@.subrange(0, i as int)),
        decreases n - i,
    {
        let c = s.get_char(i);
        if c == '\n' {
            proof {
                reveal_strlit(" ");
            }
            out.append(" ");
        } else {
            out.append(s.substring_char(i, i + 1));
        }
        assert(s@.subrange(0, i + 1) == s@.subrange(0, i as int).push(s@[i as int]));
        i = i + 1;
    }
    assert(s@.subrange(0, n as int) == s@);
    out
}

/// Length of the longest common prefix of two texts.
pub fn common_prefix_len(a: &str, b: &str) -> (r: usize)
    ensures
        is_lcp(a@, b@, r as nat),
{
    let la = a.unicode_len();
    let lb = b.unicode_len();
    let mut i: usize = 0;
    assert(a@.subrange(0, 0) =~= b@.subrange(0, 0));
    while i < la && i < lb && a.get_char(i) == b.get_char(i)
        invariant
            la == a@.len(),
            lb == b@.len(),
            shares_prefix(a@, b@, i as nat),
        decreases la - i,
    {
        assert(a@.subrange(0, i + 1) == a@.subrange(0, i as int).push(a@[i as int]));
        assert(b@.subrange(0, i + 1) == b@.subrange(0, i as int).push(b@[i as int]));
        i = i + 1;
    }
    i
}

/// The first suggestion, and the length of the prefix that all values share;
/// both `None` for an empty list.
pub fn find_common_string(values: &Vec<Suggestion>) -> (r: (Option<&Suggestion>, Option<usize>))
    ensures
        values@.len() == 0 ==> r.0.is_none() && r.1.is_none(),
        values@.len() > 0 ==> r.0 == Some(&values@[0]) && r.1.is_some()
            && is_common_prefix_len(values_of(values@), r.1.unwrap() as nat),
{
    if values.len() == 0 {
        return (None, None);
    }
    let ghost vals = values_of(values@);
    let first = &values[0];
    let mut n = first.value.as_str().unicode_len();
    let mut k: usize = 1;
    assert(first.value@.subrange(0, n as int) == first.value@);
    while k < values.len()
        invariant
            vals == values_of(values@),
            first == &values@[0],
            1 <= k <= values@.len(),
            n <= vals[0].len(),
            forall|j: int| 0 <= j < k ==> shares_prefix(vals[0], #[trigger] vals[j], n as nat),
            n == vals[0].len() || exists|j: int|
                0 <= j < k && !shares_prefix(vals[0], #[trigger] vals[j], (n + 1) as nat),
        decreases values@.len() - k,
    {
        let m = common_prefix_len(first.value.as_str(), values[k].value.as_str());
        assert(vals[k as int] == values@[k as int].value@);
        if m < n {
            let ghost old_n = n;
            n = m;
            assert forall|j: int| 0 <= j <= k implies shares_prefix(
                vals[0],
                #[trigger] vals[j],
                n as nat,
            ) by {
                if j < k {
                    assert(shares_prefix(vals[0], vals[j], old_n as nat));
                    assert(vals[0].subrange(0, n as int) == vals[0].subrange(
                        0,
                        old_n as int,
                    ).subrange(0, n as int));
                    assert(vals[j].subrange(0, n as int) == vals[j].subrange(
                        0,
                        old_n as int,
                    ).subrange(0, n as int));
                }
            }
            assert(!shares_prefix(vals[0], vals[k as int], (n + 1) as nat)) by {
                if shares_prefix(vals[0], vals[k as int], (n + 1) as nat) {
                    assert(vals[0][n as int] == vals[0].subrange(0, n + 1)[n as int]);
                    assert(vals[k as int][n as int] == vals[k as int].subrange(0, n + 1)[n as int]);
                }
            }
        } else {
            assert(shares_prefix(vals[0], vals[k as int], n as nat)) by {
                assert(vals[0].subrange(0, n as int) == vals[0].subrange(0, m as int).subrange(
                    0,
                    n as int,
                ));
                assert(vals[k as int].subrange(0, n as int) == vals[k as int].subrange(
                    0,
                    m as int,
                ).subrange(0, n as int));
            }
        }
        k = k + 1;
    }
    assert(!common_to_all(vals, (n + 1) as nat)) by {
        if n == vals[0].len() {
            assert(!shares_prefix(vals[0], vals[0], (n + 1) as nat));
        }
    }
    (Some(first), Some(n))
}

/// Where `new` starts to differ from `old`, and the rest of `new` from there.
pub fn string_difference(new: &str, old: &str) -> (r: (usize, String))
    ensures
        is_lcp(new@, old@, r.0 as nat),
        r.1@ == new@.subrange(r.0 as int, new@.len() as int),
{
    let start = common_prefix_len(new, old);
    let len = new.unicode_len();
    (start, String::from_str(new.substring_char(start, len)))
}

/// A shared prefix of length `n2` has every shorter shared prefix in it.
proof fn lemma_common_shorter(vals: Seq<Seq<char>>, n1: nat, n2: nat)
    requires
        n1 <= n2,
        common_to_all(vals, n2),
    ensures
        common_to_all(vals, n1),
{
    assert forall|k: int| 0 <= k < vals.len() implies shares_prefix(vals[0], #[trigger] vals[k], n1) by {
        assert(vals[0].subrange(0, n1 as int) == vals[0].subrange(0, n2 as int).subrange(0, n1 as int));
        assert(vals[k].subrange(0, n1 as int) == vals[k].subrange(0, n2 as int).subrange(0, n1 as int));
    }
}

/// There is one longest shared prefix.
pub proof fn lemma_common_prefix_unique(vals: Seq<Seq<char>>, n1: nat, n2: nat)
    requires
        is_common_prefix_len(vals, n1),
        is_common_prefix_len(vals, n2),
    ensures
        n1 == n2,
{
    if n1 < n2 {
        lemma_common_shorter(vals, n1 + 1, n2);
    } else if n2 < n1 {
        lemma_common_shorter(vals, n2 + 1, n1);
    }
}

/// Length of the longest prefix shared by all of `vals`.
pub open spec fn common_len(vals: Seq<Seq<char>>) -> nat {
    choose|n: nat| is_common_prefix_len(vals, n)
}

/// The end of `span` moved into a line of `len` characters.
pub open spec fn clamp_end(span: Span, len: nat) -> nat {
    if span.end <= len { span.end as nat } else { len }
}

/// The start of `span` moved into a line of `len` characters, and not past its end.
pub open spec fn clamp_start(span: Span, len: nat) -> nat {
    if span.start <= clamp_end(span, len) { span.start as nat } else { clamp_end(span, len) }
}

/// `a - b`, or zero when `b` is the larger.
pub open spec fn sat_sub(a: nat, b: nat) -> nat {
    if a >= b { (a - b) as nat } else { 0 }
}

/// The prefix that all values share, taken from the first one.
pub open spec fn shared_prefix(vals: Seq<Suggestion>) -> Seq<char> {
    vals[0].value@.subrange(0, common_len(values_of(vals)) as int)
}

/// Partial completion applies: the values share a non-empty prefix, and that
/// prefix starts with what the line already holds under the first value's span.
pub open spec fn partial_applies(vals: Seq<Suggestion>, text: Seq<char>) -> bool {
    vals.len() > 0 && common_len(values_of(vals)) > 0 && {
        let p = shared_prefix(vals);
        let s = clamp_start(vals[0].span, text.len());
        let e = clamp_end(vals[0].span, text.len());
        e - s <= p.len() && p.subrange(0, e - s) == text.subrange(s as int, e as int)
    }
}

/// Insertion point after partial completion put `inserted` characters in
/// place of `replaced` ones.
pub open spec fn partial_point(ip: nat, replaced: nat, inserted: nat) -> nat {
    if inserted < replaced {
        sat_sub(ip, (replaced - inserted) as nat)
    } else {
        sat_add(ip, (inserted - replaced) as nat)
    }
}

/// `a + b`, or the largest `usize` when that does not fit.
pub open spec fn sat_add(a: nat, b: nat) -> nat {
    if a + b > usize::MAX { usize::MAX as nat } else { a + b }
}

/// The span `span` moved into a line of `len` characters.
pub fn clamp_span(span: Span, len: usize) -> (r: (usize, usize))
    ensures
        r.0 == clamp_start(span, len as nat),
        r.1 == clamp_end(span, len as nat),
{
    let end = if span.end <= len { span.end } else { len };
    let start = if span.start <= end { span.start } else { end };
    (start, end)
}

/// Replaces what the line holds under the first suggestion's span by the
/// prefix that all suggestions share, when that prefix is not empty and
/// extends what is there; says whether it did.
pub fn complete_partially(values: &Vec<Suggestion>, editor: &mut Editor) -> (r: bool)
    ensures
        r == partial_applies(values@, old(editor).buffer@),
        r ==> ({
            let text = old(editor).buffer@;
            let s = clamp_start(values@[0].span, text.len());
            let e = clamp_end(values@[0].span, text.len());
            let p = shared_prefix(values@);
            final(editor).buffer@ == splice(text, s as int, e as int, p)
                && final(editor).insertion_point == partial_point(
                old(editor).insertion_point as nat,
                (e - s) as nat,
                p.len(),
            )
        }),
        !r ==> final(editor).buffer@ == old(editor).buffer@ && final(editor).insertion_point == old(
            editor,
        ).insertion_point,
{
    let (first, index) = find_common_string(values);
    let ghost vals = values_of(values@);
    match (first, index) {
        (Some(s), Some(n)) => {
            proof {
                assert(is_common_prefix_len(vals, n as nat));
                assert(exists|m: nat| is_common_prefix_len(vals, m));
                lemma_common_prefix_unique(vals, n as nat, common_len(vals));
                assert(vals[0] == values@[0].value@);
            }
            let matching = s.value.as_str().substring_char(0, n);
            let len = editor.len();
            let (start, end) = clamp_span(s.span, len);
            let typed_len = end - start;
            let c = common_prefix_len(matching, editor.get_buffer().substring_char(start, end));
            let extends = c == typed_len;
            let ghost typed = old(editor).buffer@.subrange(start as int, end as int);
            proof {
                assert(typed.subrange(0, typed_len as int) == typed);
                if typed_len <= n && matching@.subrange(0, typed_len as int) == typed {
                    lemma_prefix_is_lcp(matching@, typed);
                }
            }
            if n > 0 && extends {
                editor.replace_range(start, end, matching);
                let ip = editor.insertion_point();
                let offset = if n < typed_len {
                    ip.saturating_sub(typed_len - n)
                } else {
                    ip.saturating_add(n - typed_len)
                };
                editor.set_insertion_point(offset);
                true
            } else {
                false
            }
        },
        _ => false,
    }
}

/// When `b` starts `a`, their longest common prefix is `b` itself.
proof fn lemma_prefix_is_lcp(a: Seq<char>, b: Seq<char>)
    requires
        b.len() <= a.len(),
        a.subrange(0, b.len() as int) == b,
    ensures
        forall|r: nat| is_lcp(a, b, r) ==> r == b.len(),
{
    assert forall|r: nat| is_lcp(a, b, r) implies r == b.len() by {
        if r < b.len() {
            assert(a[r as int] == a.subrange(0, b.len() as int)[r as int]);
        }
    }
}

} // verus!
