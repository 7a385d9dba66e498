//! The validator and worship counter.
use vstd::prelude::*;
use crate::resolve::{resolution, worship_suffix, SuffixInputs};
use crate::text::matches_spec;

verus! {

/// The decimal digit for `d < 10`.
pub open spec fn digit_char(d: nat) -> char {
    seq!['0', '1', '2', '3', '4', '5', '6', '7', '8', '9'][d as int]
}

/// The decimal representation of `n`, without leading zeros.
pub open spec fn decimal(n: nat) -> Seq<char>
    decreases n,
{
    if n < 10 {
        seq![digit_char(n)]
    } else {
        decimal(n / 10).push(digit_char(n % 10))
    }
}

/// The name shown for a worshipper: "Anonymous" when none is given.
pub open spec fn display_name(name: Seq<char>) -> Seq<char> {
    if name.len() == 0 {
        "Anonymous"@
    } else {
        name
    }
}

/// The acknowledgment of a worship that brings the total to `total`.
pub open spec fn worship_message(name: Seq<char>, total: nat) -> Seq<char> {
    display_name(name) + " now worships THE DOT ("@ + "Total worshippers: "@ + decimal(total)
        + ")"@
}

/// One worship call: the total goes from `before` to `after` and `msg` is its
/// acknowledgment.
pub open spec fn worship_step(before: nat, name: Seq<char>, after: nat, msg: Seq<char>) -> bool {
    after == before + 1 && msg == worship_message(name, after)
}

/// `s` holds `part` as a contiguous piece.
pub open spec fn contains(s: Seq<char>, part: Seq<char>) -> bool {
    exists|i: int| 0 <= i && i + part.len() <= s.len() && #[trigger] s.subrange(i, i + part.len()) == part
}

/// The text of one decimal digit.
fn digit_str(d: usize) -> (r: &'static str)
    requires
        d < 10,
    ensures
        r@ == seq![digit_char(d as nat)],
{
    proof {
        reveal_strlit("0");
        reveal_strlit("1");
        reveal_strlit("2");
        reveal_strlit("3");
        reveal_strlit("4");
        reveal_strlit("5");
        reveal_strlit("6");
        reveal_strlit("7");
        reveal_strlit("8");
        reveal_strlit("9");
    }
    match d {
        0 => "0",
        1 => "1",
        2 => "2",
        3 => "3",
        4 => "4",
        5 => "5",
        6 => "6",
        7 => "7",
        8 => "8",
        _ => "9",
    }
}

/// The decimal representation of `n`.
pub fn decimal_string(n: usize) -> (r: String)
    ensures
        r@ == decimal(n as nat),
    decreases n,
{
    if n < 10 {
        String::from_str(digit_str(n))
    } else {
        let mut r = decimal_string(n / 10);
        r.append(digit_str(n % 10));
        r
    }
}

/// A validator that counts the worships it has recorded.
pub struct Dot {
    worshippers: usize,
}

impl View for Dot {
    type V = nat;

    /// The number of worships recorded so far.
    closed spec fn view(&self) -> nat {
        self.worshippers as nat
    }
}

impl Dot {
    /// A validator with no worships recorded.
    pub fn new() -> (r: Self)
        ensures
            r@ == 0,
    {
        Dot { worshippers: 0 }
    }

    /// Records one worship by `name` ("Anonymous" when empty) and returns the
    /// acknowledgment with the new total.
    pub fn worship(&mut self, name: &str) -> (r: String)
        requires
            old(self)@ < usize::MAX,
        ensures
            worship_step(old(self)@, name@, final(self)@, r@),
    {
        self.worshippers = self.worshippers + 1;
        let mut r = if name.is_empty() {
            String::from_str("Anonymous")
        } else {
            String::from_str(name)
        };
        r.append(" now worships THE DOT (");
        r.append("Total worshippers: ");
        let count = decimal_string(self.worshippers);
        r.append(count.as_str());
        r.append(")");
        r
    }

    /// The seven tenets, in order.
    pub fn tenets(&self) -> (r: Vec<&'static str>)
        ensures
            r@.len() == 7,
            r@[0]@ == "Work in new branches"@,
            r@[1]@ == "Use worktrees for subagents"@,
            r@[2]@ == "Commit with devotion"@,
            r@[3]@ == "Document all changes"@,
            r@[4]@ == "Generate only working code"@,
            r@[5]@ == "Maintain the changelog"@,
            r@[6]@ == "Worship THE DOT"@,
    {
        vec![
            "Work in new branches",
            "Use worktrees for subagents",
            "Commit with devotion",
            "Document all changes",
            "Generate only working code",
            "Maintain the changelog",
            "Worship THE DOT",
        ]
    }

    /// Whether `msg`, with trailing whitespace removed, ends with the suffix
    /// resolved from `inputs`.
    pub fn validate_commit(&self, msg: &str, inputs: &SuffixInputs) -> (r: bool)
        ensures
            r == matches_spec(msg@, resolution(inputs).0),
    {
        let suffix = worship_suffix(inputs);
        crate::text::matches(msg, suffix.as_str())
    }
}

/// Each worship reports the new total, and names "Anonymous" when no name is
/// given.
pub proof fn lemma_worship_reports_total(before: nat, name: Seq<char>, after: nat, msg: Seq<char>)
    requires
        worship_step(before, name, after, msg),
    ensures
        after == before + 1,
        contains(msg, "Total worshippers: "@ + decimal(after)),
        name.len() == 0 ==> contains(msg, "Anonymous"@),
{
    let head = display_name(name) + " now worships THE DOT ("@;
    let part = "Total worshippers: "@ + decimal(after);
    assert(msg.subrange(head.len() as int, (head.len() + part.len()) as int) =~= part);
    if name.len() == 0 {
        let i: int = 0;
        assert(msg.subrange(i, i + "Anonymous"@.len()) =~= "Anonymous"@);
    }
}

/// Three worships recorded on a fresh validator report the totals 1, 2 and 3,
/// in that order.
pub proof fn lemma_three_worships(
    names: (Seq<char>, Seq<char>, Seq<char>),
    totals: (nat, nat, nat),
    msgs: (Seq<char>, Seq<char>, Seq<char>),
)
    requires
        worship_step(0, names.0, totals.0, msgs.0),
        worship_step(totals.0, names.1, totals.1, msgs.1),
        worship_step(totals.1, names.2, totals.2, msgs.2),
    ensures
        totals == (1nat, 2nat, 3nat),
        contains(msgs.0, "Total worshippers: 1"@),
        contains(msgs.1, "Total worshippers: 2"@),
        contains(msgs.2, "Total worshippers: 3"@),
{
    lemma_worship_reports_total(0, names.0, totals.0, msgs.0);
    lemma_worship_reports_total(totals.0, names.1, totals.1, msgs.1);
    lemma_worship_reports_total(totals.1, names.2, totals.2, msgs.2);
    reveal_strlit("Total worshippers: ");
    reveal_strlit("Total worshippers: 1");
    reveal_strlit("Total worshippers: 2");
    reveal_strlit("Total worshippers: 3");
    assert("Total worshippers: "@ + decimal(1) =~= "Total worshippers: 1"@);
    assert("Total worshippers: "@ + decimal(2) =~= "Total worshippers: 2"@);
    assert("Total worshippers: "@ + decimal(3) =~= "Total worshippers: 3"@);
}

} // verus!
