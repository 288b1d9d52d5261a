//! The computable parts of the dashboard and the parameter log: assembling
//! the `name: value` report of a board's parameters, and rendering an
//! acquisition status word as its binary digits for the per-board panel.
use vstd::prelude::*;

verus! {

use vstd::string::StringExecFns;
use crate::params::pairs_view;

/// One report line, without its newline.
pub open spec fn spec_param_line(e: (Seq<char>, Seq<char>)) -> Seq<char> {
    e.0 + ": "@ + e.1
}

/// The report of a list of (parameter, value) pairs: one line each, joined
/// by newlines.
pub open spec fn spec_param_report(entries: Seq<(Seq<char>, Seq<char>)>) -> Seq<char>
    decreases entries.len(),
{
    if entries.len() == 0 {
        Seq::empty()
    } else if entries.len() == 1 {
        spec_param_line(entries[0])
    } else {
        spec_param_report(entries.drop_last()) + "\n"@ + spec_param_line(entries.last())
    }
}

/// Assembles the parameter report of one board: each fetched value on its
/// own `name: value` line.
pub fn param_report(entries: &Vec<(String, String)>) -> (s: String)
    ensures
        s@ == spec_param_report(pairs_view(entries@)),
{
    let ghost target = pairs_view(entries@);
    let mut s = String::new();
    let mut i: usize = 0;
    proof {
        assert(target.take(0) =~= Seq::<(Seq<char>, Seq<char>)>::empty());
    }
    while i < entries.len()
        invariant
            i <= entries@.len(),
            target == pairs_view(entries@),
            s@ == spec_param_report(target.take(i as int)),
        decreases entries@.len() - i,
    {
        if i > 0 {
            s.append("\n");
        }
        s.append(entries[i].0.as_str());
        s.append(": ");
        s.append(entries[i].1.as_str());
        proof {
            let pre = target.take(i as int);
            let ext = target.take(i + 1);
            assert(ext.drop_last() =~= pre);
            assert(ext.last() == target[i as int]);
            assert(s@ =~= spec_param_report(ext));
        }
        i = i + 1;
    }
    proof {
        assert(target.take(entries@.len() as int) =~= target);
    }
    s
}

/// The binary digits of a status word, most significant first, without
/// leading zeros; zero renders as a single zero digit.
pub open spec fn spec_status_bits(n: nat) -> Seq<bool>
    decreases n,
{
    if n < 2 {
        seq![n == 1]
    } else {
        spec_status_bits(n / 2).push(n % 2 == 1)
    }
}

/// Renders an acquisition status word as the bits the panel lights up,
/// most significant first.
pub fn acquisition_status_bits(status: u32) -> (v: Vec<bool>)
    ensures
        v@ == spec_status_bits(status as nat),
    decreases status,
{
    if status < 2 {
        let mut v: Vec<bool> = Vec::new();
        v.push(status == 1);
        proof {
            assert(v@ =~= spec_status_bits(status as nat));
        }
        v
    } else {
        let mut v = acquisition_status_bits(status / 2);
        v.push(status % 2 == 1);
        proof {
            assert(v@ =~= spec_status_bits(status as nat));
        }
        v
    }
}

} // verus!
