//! Event extraction from a record's rich-text title: a record is
//! calendar-worthy exactly when some title segment is a date-typed mention,
//! and then contributes the first segment's (trimmed) plain text as display
//! title together with every date mention's payload, in order.

use vstd::prelude::*;
use vstd::string::StrSliceExecFns;
use crate::norm::token_view;

verus! {

/// One date mention's payload: a start token and an optional end token.
/// `None` stands for a field that is absent or not a string.
pub struct DateMention {
    pub start: Option<String>,
    pub end: Option<String>,
}

/// One rich-text segment of a title: its plain text, and the date payload
/// when the segment is a date-typed mention.
pub struct Segment {
    pub plain_text: String,
    pub date_mention: Option<DateMention>,
}

/// The character-level model of a mention: the two token views.
pub open spec fn dm_view(m: DateMention) -> (Option<Seq<char>>, Option<Seq<char>>) {
    (token_view(m.start), token_view(m.end))
}

pub open spec fn dm_views(ms: Seq<DateMention>) -> Seq<(Option<Seq<char>>, Option<Seq<char>>)> {
    ms.map_values(|m: DateMention| dm_view(m))
}

/// The date payloads of the date-typed mention segments, in order.
pub open spec fn date_mentions_of(segs: Seq<Segment>) -> Seq<
    (Option<Seq<char>>, Option<Seq<char>>),
>
    decreases segs.len(),
{
    if segs.len() == 0 {
        Seq::empty()
    } else {
        let head = match segs[0].date_mention {
            Some(m) => seq![dm_view(m)],
            None => Seq::empty(),
        };
        head + date_mentions_of(segs.drop_first())
    }
}

proof fn lemma_date_mentions_push(segs: Seq<Segment>, x: Segment)
    ensures
        date_mentions_of(segs.push(x)) == date_mentions_of(segs) + (match x.date_mention {
            Some(m) => seq![dm_view(m)],
            None => Seq::<(Option<Seq<char>>, Option<Seq<char>>)>::empty()
        }),
    decreases segs.len(),
{
    let tail = match x.date_mention {
        Some(m) => seq![dm_view(m)],
        None => Seq::<(Option<Seq<char>>, Option<Seq<char>>)>::empty(),
    };
    if segs.len() == 0 {
        assert(segs.push(x).drop_first() =~= segs);
        assert(date_mentions_of(segs.push(x)) =~= date_mentions_of(segs) + tail);
    } else {
        assert(segs.push(x).drop_first() =~= segs.drop_first().push(x));
        lemma_date_mentions_push(segs.drop_first(), x);
        assert(date_mentions_of(segs.push(x)) =~= date_mentions_of(segs) + tail);
    }
}

/// No segment carries a date mention exactly when no date payload comes out.
pub proof fn lemma_no_date_mentions(segs: Seq<Segment>)
    ensures
        date_mentions_of(segs).len() == 0 <==> (forall|i: int|
            0 <= i < segs.len() ==> segs[i].date_mention is None),
    decreases segs.len(),
{
    if segs.len() > 0 {
        let rest = segs.drop_first();
        lemma_no_date_mentions(rest);
        assert(forall|i: int| 0 <= i < rest.len() ==> rest[i] == segs[i + 1]);
        if date_mentions_of(segs).len() == 0 {
            assert(segs[0].date_mention is None);
            assert forall|i: int| 0 <= i < segs.len() implies segs[i].date_mention is None by {
                if i > 0 {
                    assert(rest[i - 1] == segs[i]);
                }
            }
        }
        if forall|i: int| 0 <= i < segs.len() ==> segs[i].date_mention is None {
            assert(forall|i: int| 0 <= i < rest.len() ==> rest[i].date_mention is None);
            assert(date_mentions_of(rest).len() == 0);
            assert(segs[0].date_mention is None);
        }
    }
}

proof fn lemma_first_non_ws_ge(s: Seq<char>, i: int)
    requires
        0 <= i <= s.len(),
    ensures
        i <= first_non_ws(s, i) <= s.len(),
    decreases s.len() - i,
{
    if i < s.len() && is_ws(s[i]) {
        lemma_first_non_ws_ge(s, i + 1);
    }
}

proof fn lemma_end_non_ws_le(s: Seq<char>, j: int)
    requires
        0 <= j,
    ensures
        0 <= end_non_ws(s, j) <= j,
    decreases j,
{
    if j > 0 && is_ws(s[j - 1]) {
        lemma_end_non_ws_le(s, j - 1);
    }
}

/// The Unicode White_Space characters, the set that titles are trimmed by.
pub open spec fn is_ws(c: char) -> bool {
    ||| (9 <= c as int <= 13)
    ||| c as int == 32
    ||| c as int == 0x85
    ||| c as int == 0xA0
    ||| c as int == 0x1680
    ||| (0x2000 <= c as int <= 0x200A)
    ||| c as int == 0x2028
    ||| c as int == 0x2029
    ||| c as int == 0x202F
    ||| c as int == 0x205F
    ||| c as int == 0x3000
}

/// First index at or after `i` that holds a non-whitespace character.
pub open spec fn first_non_ws(s: Seq<char>, i: int) -> int
    decreases s.len() - i,
{
    if i < s.len() && is_ws(s[i]) {
        first_non_ws(s, i + 1)
    } else {
        i
    }
}

/// Index one past the last non-whitespace character strictly before `j`.
pub open spec fn end_non_ws(s: Seq<char>, j: int) -> int
    decreases j,
{
    if j > 0 && is_ws(s[j - 1]) {
        end_non_ws(s, j - 1)
    } else {
        j
    }
}

/// The sequence with leading and trailing whitespace removed.
pub open spec fn trim_view(s: Seq<char>) -> Seq<char> {
    let a = first_non_ws(s, 0);
    let b = end_non_ws(s, s.len() as int);
    if a <= b {
        s.subrange(a, b)
    } else {
        Seq::empty()
    }
}

proof fn lemma_end_non_ws_past(s: Seq<char>, a: int, j: int)
    requires
        0 <= a < j <= s.len(),
        !is_ws(s[a]),
    ensures
        a < end_non_ws(s, j) <= j,
    decreases j,
{
    if is_ws(s[j - 1]) {
        lemma_end_non_ws_past(s, a, j - 1);
    }
}

fn is_ws_exec(c: char) -> (b: bool)
    ensures
        b == is_ws(c),
{
    let u = c as u32;
    (9 <= u && u <= 13) || u == 32 || u == 0x85 || u == 0xA0 || u == 0x1680 || (0x2000 <= u && u
        <= 0x200A) || u == 0x2028 || u == 0x2029 || u == 0x202F || u == 0x205F || u == 0x3000
}

/// Copies a string without its leading and trailing whitespace.
pub fn trim_str(s: &str) -> (r: String)
    ensures
        r@ == trim_view(s@),
{
    let n = s.unicode_len();
    let mut a: usize = 0;
    loop
        invariant
            0 <= a <= n,
            n == s@.len(),
            first_non_ws(s@, 0) == first_non_ws(s@, a as int),
        ensures
            0 <= a <= n,
            n == s@.len(),
            first_non_ws(s@, 0) == a,
            a < n ==> !is_ws(s@[a as int]),
        decreases n - a,
    {
        if a >= n {
            break;
        }
        if !is_ws_exec(s.get_char(a)) {
            break;
        }
        a = a + 1;
    }
    if a == n {
        proof {
            lemma_end_non_ws_le(s@, s@.len() as int);
            assert(trim_view(s@) =~= Seq::<char>::empty());
        }
        return String::new();
    }
    let mut b: usize = n;
    loop
        invariant
            a < b <= n,
            n == s@.len(),
            !is_ws(s@[a as int]),
            end_non_ws(s@, n as int) == end_non_ws(s@, b as int),
        ensures
            a < b <= n,
            end_non_ws(s@, n as int) == b,
        decreases b,
    {
        if !is_ws_exec(s.get_char(b - 1)) {
            break;
        }
        proof {
            lemma_end_non_ws_past(s@, a as int, b as int);
        }
        b = b - 1;
    }
    s.substring_char(a, b).to_owned()
}

fn clone_token(t: &Option<String>) -> (r: Option<String>)
    ensures
        token_view(r) == token_view(*t),
{
    match t {
        None => None,
        Some(s) => Some(s.clone()),
    }
}

impl DateMention {
    /// A copy with the same token views.
    pub fn duplicate(&self) -> (r: DateMention)
        ensures
            dm_view(r) == dm_view(*self),
    {
        DateMention { start: clone_token(&self.start), end: clone_token(&self.end) }
    }
}

/// Decides whether a title's segments make the record calendar-worthy, and
/// if so returns the display title (the first segment's trimmed plain text)
/// with every date mention's payload, in order.
pub fn extract(segments: &Vec<Segment>) -> (r: Option<(String, Vec<DateMention>)>)
    ensures
        match r {
            None => date_mentions_of(segments@).len() == 0,
            Some(out) => {
                &&& segments@.len() > 0
                &&& date_mentions_of(segments@).len() > 0
                &&& out.0@ == trim_view(segments@[0].plain_text@)
                &&& dm_views(out.1@) == date_mentions_of(segments@)
            },
        },
{
    let mut ds: Vec<DateMention> = Vec::new();
    let mut i: usize = 0;
    while i < segments.len()
        invariant
            0 <= i <= segments@.len(),
            dm_views(ds@) == date_mentions_of(segments@.take(i as int)),
        decreases segments@.len() - i,
    {
        proof {
            assert(segments@.take(i as int).push(segments@[i as int]) =~= segments@.take(
                i as int + 1,
            ));
            lemma_date_mentions_push(segments@.take(i as int), segments@[i as int]);
        }
        match &segments[i].date_mention {
            Some(m) => {
                let d = m.duplicate();
                ds.push(d);
                proof {
                    assert(dm_views(ds@) =~= date_mentions_of(segments@.take(i as int + 1)));
                }
            },
            None => {
                proof {
                    assert(dm_views(ds@) =~= date_mentions_of(segments@.take(i as int + 1)));
                }
            },
        }
        i = i + 1;
    }
    proof {
        assert(segments@.take(segments@.len() as int) =~= segments@);
    }
    if ds.len() == 0 {
        return None;
    }
    let title = trim_str(segments[0].plain_text.as_str());
    Some((title, ds))
}

} // verus!
