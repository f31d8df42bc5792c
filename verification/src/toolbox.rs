//! The control panel: parsing of the node-id list typed by the user and
//! the requests that the panel's buttons produce.

use std::collections::HashSet;
use vstd::prelude::*;
use crate::background::DummyLogData;

verus! {

broadcast use vstd::std_specs::hash::group_hash_axioms;

/// Unicode `White_Space`: the characters that `str::trim` removes.
pub open spec fn is_whitespace(c: char) -> bool {
    let u: u32 = c as u32;
    ||| 0x9 <= u <= 0xD
    ||| u == 0x20
    ||| u == 0x85
    ||| u == 0xA0
    ||| u == 0x1680
    ||| 0x2000 <= u <= 0x200A
    ||| u == 0x2028
    ||| u == 0x2029
    ||| u == 0x202F
    ||| u == 0x205F
    ||| u == 0x3000
}

/// `s` without its leading whitespace.
pub open spec fn trim_start(s: Seq<char>) -> Seq<char>
    decreases s.len(),
{
    if s.len() > 0 && is_whitespace(s[0]) {
        trim_start(s.drop_first())
    } else {
        s
    }
}

/// `s` without its trailing whitespace.
pub open spec fn trim_end(s: Seq<char>) -> Seq<char>
    decreases s.len(),
{
    if s.len() > 0 && is_whitespace(s.last()) {
        trim_end(s.drop_last())
    } else {
        s
    }
}

/// `s` without leading and trailing whitespace.
pub open spec fn trim(s: Seq<char>) -> Seq<char> {
    trim_end(trim_start(s))
}

/// The pieces of `s` between commas, in order; `s` with `k` commas has
/// `k + 1` pieces, some of them possibly empty.
pub open spec fn split_commas(s: Seq<char>) -> Seq<Seq<char>>
    decreases s.len(),
{
    if s.len() == 0 {
        seq![Seq::<char>::empty()]
    } else {
        let init = split_commas(s.drop_last());
        if s.last() == ',' {
            init.push(Seq::<char>::empty())
        } else {
            init.update(init.len() - 1, init.last().push(s.last()))
        }
    }
}

pub open spec fn is_digit(c: char) -> bool {
    '0' as u32 <= c as u32 <= '9' as u32
}

pub open spec fn all_digits(s: Seq<char>) -> bool {
    forall|i: int| 0 <= i < s.len() ==> is_digit(#[trigger] s[i])
}

/// The number written by the decimal digits `s` (most significant first).
pub open spec fn digits_value(s: Seq<char>) -> nat
    decreases s.len(),
{
    if s.len() == 0 {
        0
    } else {
        digits_value(s.drop_last()) * 10 + (s.last() as u32 - '0' as u32) as nat
    }
}

/// What `u64::from_str` gives for `t`: an optional `+`, then at least one
/// decimal digit and nothing else, with a value that fits in a `u64`.
pub open spec fn parse_u64(t: Seq<char>) -> Option<u64> {
    let d = if t.len() > 0 && t[0] == '+' { t.drop_first() } else { t };
    if d.len() > 0 && all_digits(d) && digits_value(d) <= u64::MAX {
        Some(digits_value(d) as u64)
    } else {
        None
    }
}

/// One comma-separated piece: `Some(None)` when it is blank and skipped,
/// `Some(Some(id))` when it names a node, `None` when it is malformed.
pub open spec fn parse_piece(p: Seq<char>) -> Option<Option<u64>> {
    let t = trim(p);
    if t.len() == 0 {
        Some(None)
    } else {
        match parse_u64(t) {
            Some(v) => Some(Some(v)),
            None => None,
        }
    }
}

/// The set of ids named by `ps`, or `None` as soon as one piece is malformed.
pub open spec fn parse_pieces(ps: Seq<Seq<char>>) -> Option<Set<u64>>
    decreases ps.len(),
{
    if ps.len() == 0 {
        Some(Set::<u64>::empty())
    } else {
        match (parse_pieces(ps.drop_last()), parse_piece(ps.last())) {
            (Some(ids), Some(None)) => Some(ids),
            (Some(ids), Some(Some(v))) => Some(ids.insert(v)),
            _ => None,
        }
    }
}

/// The node ids that a comma-separated list names.
pub open spec fn node_ids_of(s: Seq<char>) -> Option<Set<u64>> {
    parse_pieces(split_commas(s))
}

fn is_whitespace_char(c: char) -> (b: bool)
    ensures
        b == is_whitespace(c),
{
    let u: u32 = c as u32;
    (0x9 <= u && u <= 0xD) || u == 0x20 || u == 0x85 || u == 0xA0 || u == 0x1680 || (0x2000 <= u
        && u <= 0x200A) || u == 0x2028 || u == 0x2029 || u == 0x202F || u == 0x205F || u == 0x3000
}

/// The bounds of `trim(cs[a..b])` inside `cs`.
fn trimmed_bounds(cs: &Vec<char>, a: usize, b: usize) -> (r: (usize, usize))
    requires
        a <= b <= cs.len(),
    ensures
        a <= r.0 <= r.1 <= b,
        cs@.subrange(r.0 as int, r.1 as int) == trim(cs@.subrange(a as int, b as int)),
{
    let mut lo: usize = a;
    while lo < b && is_whitespace_char(cs[lo])
        invariant
            a <= lo <= b <= cs.len(),
            trim_start(cs@.subrange(a as int, b as int)) == trim_start(
                cs@.subrange(lo as int, b as int),
            ),
        decreases b - lo,
    {
        assert(cs@.subrange(lo as int, b as int).drop_first() =~= cs@.subrange(
            lo + 1,
            b as int,
        ));
        lo = lo + 1;
    }
    assert(trim_start(cs@.subrange(lo as int, b as int)) == cs@.subrange(lo as int, b as int));
    let mut hi: usize = b;
    while hi > lo && is_whitespace_char(cs[hi - 1])
        invariant
            a <= lo <= hi <= b <= cs.len(),
            trim_end(cs@.subrange(lo as int, b as int)) == trim_end(
                cs@.subrange(lo as int, hi as int),
            ),
        decreases hi - lo,
    {
        assert(cs@.subrange(lo as int, hi as int).drop_last() =~= cs@.subrange(
            lo as int,
            hi - 1,
        ));
        hi = hi - 1;
    }
    (lo, hi)
}

proof fn lemma_digits_value_grows(s: Seq<char>, i: int)
    requires
        0 <= i <= s.len(),
    ensures
        digits_value(s.take(i)) <= digits_value(s),
    decreases s.len() - i,
{
    if i < s.len() {
        lemma_digits_value_grows(s, i + 1);
        assert(s.take(i + 1).drop_last() =~= s.take(i));
    } else {
        assert(s.take(i) =~= s);
    }
}

/// `u64::from_str` on `cs[a..b]`.
fn parse_u64_range(cs: &Vec<char>, a: usize, b: usize) -> (r: Option<u64>)
    requires
        a <= b <= cs.len(),
    ensures
        r == parse_u64(cs@.subrange(a as int, b as int)),
{
    let ghost t = cs@.subrange(a as int, b as int);
    let mut start: usize = a;
    if a < b && cs[a] == '+' {
        start = a + 1;
    }
    let ghost d = cs@.subrange(start as int, b as int);
    assert(d =~= (if t.len() > 0 && t[0] == '+' { t.drop_first() } else { t }));
    if start == b {
        return None;
    }
    let mut value: u64 = 0;
    let mut i: usize = start;
    while i < b
        invariant
            a <= start <= i <= b <= cs.len(),
            d == cs@.subrange(start as int, b as int),
            t == cs@.subrange(a as int, b as int),
            d == (if t.len() > 0 && t[0] == '+' { t.drop_first() } else { t }),
            d.len() > 0,
            all_digits(cs@.subrange(start as int, i as int)),
            value == digits_value(cs@.subrange(start as int, i as int)),
        decreases b - i,
    {
        let c = cs[i];
        let ghost pre = cs@.subrange(start as int, i as int);
        let ghost next = cs@.subrange(start as int, i + 1);
        assert(next.drop_last() =~= pre);
        assert(d.take(i + 1 - start) =~= next);
        let cu: u32 = c as u32;
        assert(d[i - start] == c);
        if !('0' as u32 <= cu && cu <= '9' as u32) {
            assert(!is_digit(d[i - start]));
            return None;
        }
        let digit: u64 = (cu - '0' as u32) as u64;
        let step: Option<u64> = match value.checked_mul(10) {
            Some(m) => m.checked_add(digit),
            None => None,
        };
        match step {
            Some(v) => {
                value = v;
            },
            None => {
                proof {
                    lemma_digits_value_grows(d, i + 1 - start);
                }
                return None;
            },
        }
        assert forall|k: int| 0 <= k < next.len() implies is_digit(#[trigger] next[k]) by {
            if k < pre.len() {
                assert(next[k] == pre[k]);
            }
        }
        i = i + 1;
    }
    assert(cs@.subrange(start as int, i as int) =~= d);
    Some(value)
}

/// One comma-separated piece `cs[a..b]`, as `parse_piece` describes.
fn parse_piece_range(cs: &Vec<char>, a: usize, b: usize) -> (r: Option<Option<u64>>)
    requires
        a <= b <= cs.len(),
    ensures
        r == parse_piece(cs@.subrange(a as int, b as int)),
{
    let (lo, hi) = trimmed_bounds(cs, a, b);
    if lo == hi {
        return Some(None);
    }
    match parse_u64_range(cs, lo, hi) {
        Some(v) => Some(Some(v)),
        None => None,
    }
}

/// The characters of `s`, in order.
fn chars_of(s: &str) -> (v: Vec<char>)
    ensures
        v@ == s@,
{
    let n: usize = s.unicode_len();
    let mut v: Vec<char> = Vec::new();
    let mut i: usize = 0;
    while i < n
        invariant
            n == s@.len(),
            i <= n,
            v@ == s@.take(i as int),
        decreases n - i,
    {
        v.push(s.get_char(i));
        assert(v@ =~= s@.take(i + 1));
        i = i + 1;
    }
    assert(v@ =~= s@);
    v
}

/// Parses a comma-separated list of node ids, as typed into the control
/// panel: pieces are trimmed, blank pieces are skipped, and the whole list
/// is rejected when one piece is not a `u64`.
pub fn parse_node_ids(s: &str) -> (r: Option<HashSet<u64>>)
    ensures
        match r {
            Some(ids) => node_ids_of(s@) == Some(ids@),
            None => node_ids_of(s@) is None,
        },
{
    let cs = chars_of(s);
    let n: usize = cs.len();
    let mut ids: HashSet<u64> = HashSet::new();
    let mut ok = true;
    let mut seg_start: usize = 0;
    let mut i: usize = 0;
    let ghost mut pieces: Seq<Seq<char>> = Seq::empty();
    assert(cs@.take(0) =~= Seq::<char>::empty());
    assert(cs@.subrange(0, 0) =~= Seq::<char>::empty());
    assert(split_commas(Seq::<char>::empty()) =~= pieces.push(Seq::<char>::empty()));
    while i < n
        invariant
            n == cs.len(),
            seg_start <= i <= n,
            split_commas(cs@.take(i as int)) == pieces.push(
                cs@.subrange(seg_start as int, i as int),
            ),
            ok ==> parse_pieces(pieces) == Some(ids@),
            !ok ==> parse_pieces(pieces) is None,
        decreases n - i,
    {
        let ghost seg = cs@.subrange(seg_start as int, i as int);
        assert(cs@.take(i + 1).drop_last() =~= cs@.take(i as int));
        assert(pieces.push(seg).drop_last() =~= pieces);
        if cs[i] == ',' {
            if ok {
                match parse_piece_range(&cs, seg_start, i) {
                    Some(Some(v)) => {
                        ids.insert(v);
                    },
                    Some(None) => {},
                    None => {
                        ok = false;
                    },
                }
            }
            proof {
                pieces = pieces.push(seg);
                assert(cs@.subrange(i + 1, i + 1) =~= Seq::<char>::empty());
            }
            seg_start = i + 1;
        } else {
            proof {
                assert(seg.push(cs@[i as int]) =~= cs@.subrange(seg_start as int, i + 1));
                assert(pieces.push(seg).update(pieces.len() as int, seg.push(cs@[i as int]))
                    =~= pieces.push(cs@.subrange(seg_start as int, i + 1)));
            }
        }
        i = i + 1;
    }
    let ghost last = cs@.subrange(seg_start as int, n as int);
    assert(cs@.take(n as int) =~= cs@);
    assert(pieces.push(last).drop_last() =~= pieces);
    if ok {
        match parse_piece_range(&cs, seg_start, n) {
            Some(Some(v)) => {
                ids.insert(v);
            },
            Some(None) => {},
            None => {
                ok = false;
            },
        }
    }
    if ok {
        Some(ids)
    } else {
        None
    }
}

/// A request that the control panel sends to the selected node.
pub enum PanelRequest {
    SetLearners { ids: HashSet<u64> },
    SetMembers { ids: HashSet<u64>, fault_tolerance: u64 },
    ClientRequest { data: DummyLogData },
}

/// A panel request as plain values.
pub enum PanelRequestView {
    SetLearners { ids: Set<u64> },
    SetMembers { ids: Set<u64>, fault_tolerance: u64 },
    ClientRequest { msg: Seq<char> },
}

impl View for PanelRequest {
    type V = PanelRequestView;

    open spec fn view(&self) -> PanelRequestView {
        match self {
            PanelRequest::SetLearners { ids } => PanelRequestView::SetLearners { ids: ids@ },
            PanelRequest::SetMembers { ids, fault_tolerance } => PanelRequestView::SetMembers {
                ids: ids@,
                fault_tolerance: *fault_tolerance,
            },
            PanelRequest::ClientRequest { data } => PanelRequestView::ClientRequest { msg: data.msg@ },
        }
    }
}

/// The fault tolerance asked for when the panel sets the voting members.
pub const MEMBERS_FAULT_TOLERANCE: u64 = 1;

/// What the panel does in one frame, given the typed text `args` and the
/// buttons clicked: "Set Learners" sends the parsed ids and clears the text
/// when it parses; then "Set Members" does the same with what the text is
/// by then; then "Client Request" sends what the text is by then, which it
/// keeps. Returns the text afterwards and the requests, in order.
pub open spec fn panel_outcome(
    args: Seq<char>,
    learners_clicked: bool,
    members_clicked: bool,
    request_clicked: bool,
) -> (Seq<char>, Seq<PanelRequestView>) {
    let learners = if learners_clicked { node_ids_of(args) } else { None };
    let args1 = if learners is Some { Seq::<char>::empty() } else { args };
    let reqs1 = match learners {
        Some(ids) => seq![PanelRequestView::SetLearners { ids }],
        None => Seq::<PanelRequestView>::empty(),
    };
    let members = if members_clicked { node_ids_of(args1) } else { None };
    let args2 = if members is Some { Seq::<char>::empty() } else { args1 };
    let reqs2 = match members {
        Some(ids) => reqs1.push(PanelRequestView::SetMembers { ids, fault_tolerance: MEMBERS_FAULT_TOLERANCE }),
        None => reqs1,
    };
    let reqs3 = if request_clicked {
        reqs2.push(PanelRequestView::ClientRequest { msg: args2 })
    } else {
        reqs2
    };
    (args2, reqs3)
}

/// The requests that the panel's buttons produce in one frame, in the
/// order they are sent; `args` is the text typed into the panel, which a
/// successful "Set Learners" or "Set Members" clears.
pub fn panel_requests(
    args: &mut String,
    learners_clicked: bool,
    members_clicked: bool,
    request_clicked: bool,
) -> (r: Vec<PanelRequest>)
    ensures
        ({
            let (new_args, reqs) = panel_outcome(old(args)@, learners_clicked, members_clicked, request_clicked);
            &&& final(args)@ == new_args
            &&& r@.len() == reqs.len()
            &&& forall|i: int| 0 <= i < r@.len() ==> (#[trigger] r@[i])@ == reqs[i]
        }),
{
    let mut r: Vec<PanelRequest> = Vec::new();
    if learners_clicked {
        match parse_node_ids(args.as_str()) {
            Some(ids) => {
                *args = String::new();
                r.push(PanelRequest::SetLearners { ids });
            },
            None => {},
        }
    }
    if members_clicked {
        match parse_node_ids(args.as_str()) {
            Some(ids) => {
                *args = String::new();
                r.push(PanelRequest::SetMembers { ids, fault_tolerance: MEMBERS_FAULT_TOLERANCE });
            },
            None => {},
        }
    }
    if request_clicked {
        r.push(PanelRequest::ClientRequest { data: DummyLogData { msg: args.clone() } });
    }
    r
}

} // verus!
