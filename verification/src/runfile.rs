//! Run-file naming: the campaign directory, the next free run number found
//! by scanning that directory for names of the form `run<digits>_…`, and the
//! run prefix that subrun file names derive from.
use vstd::prelude::*;

verus! {

use vstd::string::StrSliceExecFns;
use vstd::string::StringExecFns;
use crate::text::spec_dec;
use crate::text::u64_to_string;

/// Whether a character is a decimal digit.
pub open spec fn is_digit(c: char) -> bool {
    '0' <= c <= '9'
}

/// Every character of the sequence is a decimal digit.
pub open spec fn all_digits(s: Seq<char>) -> bool {
    forall|i: int| 0 <= i < s.len() ==> is_digit(#[trigger] s[i])
}

/// The number a digit sequence denotes.
pub open spec fn digits_val(s: Seq<char>) -> int
    decreases s.len(),
{
    if s.len() == 0 {
        0
    } else {
        digits_val(s.drop_last()) * 10 + (s.last() as int - '0' as int)
    }
}

/// The position of the first underscore at or after `i`, or the length when
/// there is none.
pub open spec fn find_underscore(s: Seq<char>, i: int) -> int
    decreases s.len() - i,
{
    if i < 0 || i >= s.len() {
        s.len() as int
    } else if s[i] == '_' {
        i
    } else {
        find_underscore(s, i + 1)
    }
}

/// The run number a file name carries: the digits between the leading `run`
/// and the first underscore (or the end), when they are a representable
/// number; nothing otherwise.
pub open spec fn spec_run_num(name: Seq<char>) -> Option<int> {
    if name.len() >= 3 && name[0] == 'r' && name[1] == 'u' && name[2] == 'n' {
        let rest = name.skip(3);
        let num = rest.take(find_underscore(rest, 0));
        if num.len() > 0 && all_digits(num) && digits_val(num) <= usize::MAX {
            Some(digits_val(num))
        } else {
            None
        }
    } else {
        None
    }
}

/// The largest run number any of the names carries.
pub open spec fn spec_max_run(names: Seq<Seq<char>>) -> Option<int>
    decreases names.len(),
{
    if names.len() == 0 {
        None
    } else {
        let head = spec_max_run(names.drop_last());
        match spec_run_num(names.last()) {
            Some(v) => match head {
                Some(m) => Some(if v > m {
                    v
                } else {
                    m
                }),
                None => Some(v),
            },
            None => head,
        }
    }
}

/// The next free run number: one past the largest in use, or zero in a
/// fresh campaign directory.
pub open spec fn spec_next_run(names: Seq<Seq<char>>) -> int {
    match spec_max_run(names) {
        Some(m) => m + 1,
        None => 0,
    }
}

/// Digit values only grow as digits are appended.
proof fn lemma_digits_val_nonneg(s: Seq<char>)
    requires
        all_digits(s),
    ensures
        digits_val(s) >= 0,
    decreases s.len(),
{
    if s.len() > 0 {
        assert(all_digits(s.drop_last())) by {
            assert(forall|i: int| 0 <= i < s.len() - 1 ==> is_digit(#[trigger] s.drop_last()[i]));
        }
        lemma_digits_val_nonneg(s.drop_last());
    }
}

/// A digit prefix never denotes more than the whole digit string.
proof fn lemma_digits_val_prefix_le(s: Seq<char>, n: int)
    requires
        all_digits(s),
        0 <= n <= s.len(),
    ensures
        digits_val(s.take(n)) <= digits_val(s),
    decreases s.len() - n,
{
    if n < s.len() {
        lemma_digits_val_prefix_le(s, n + 1);
        let a = s.take(n);
        let b = s.take(n + 1);
        assert(b.drop_last() =~= a);
        assert(all_digits(a)) by {
            assert(forall|i: int| 0 <= i < a.len() ==> is_digit(#[trigger] s[i]));
        }
        lemma_digits_val_nonneg(a);
    } else {
        assert(s.take(n) =~= s);
    }
}

/// What `find_underscore` returns: the first underscore at or after `from`,
/// with none before it.
proof fn lemma_find_underscore_props(s: Seq<char>, from: int)
    requires
        0 <= from <= s.len(),
    ensures
        from <= find_underscore(s, from) <= s.len(),
        find_underscore(s, from) < s.len() ==> s[find_underscore(s, from)] == '_',
        forall|j: int| from <= j < find_underscore(s, from) ==> s[j] != '_',
    decreases s.len() - from,
{
    if from < s.len() && s[from] != '_' {
        lemma_find_underscore_props(s, from + 1);
    }
}

fn parse_run_num(name: &str) -> (r: Option<usize>)
    ensures
        match r {
            Some(v) => spec_run_num(name@) == Some(v as int),
            None => spec_run_num(name@) is None,
        },
{
    let n = name.unicode_len();
    if n < 3 {
        return None;
    }
    if name.get_char(0) != 'r' || name.get_char(1) != 'u' || name.get_char(2) != 'n' {
        return None;
    }
    let ghost rest = name@.skip(3);
    let ghost end = find_underscore(rest, 0);
    let ghost num = rest.take(end);
    proof {
        lemma_find_underscore_props(rest, 0);
    }
    let mut i: usize = 3;
    let mut val: usize = 0;
    while i < n
        invariant
            3 <= i <= n,
            n == name@.len(),
            name@[0] == 'r' && name@[1] == 'u' && name@[2] == 'n',
            rest == name@.skip(3),
            end == find_underscore(rest, 0),
            num == rest.take(end),
            end == find_underscore(rest, i - 3),
            all_digits(rest.take(i - 3)),
            i - 3 <= end <= rest.len(),
            val == digits_val(rest.take(i - 3)),
        decreases n - i,
    {
        let c = name.get_char(i);
        proof {
            assert(rest[i - 3] == name@[i as int]);
        }
        if c == '_' {
            // the number part ends here; what was read is the whole of it
            proof {
                assert(rest[i - 3] == '_');
                assert(end == i - 3);
                assert(num =~= rest.take(i - 3));
                assert(all_digits(num));
                assert(digits_val(num) == val as int);
            }
            if i == 3 {
                return None;
            }
            proof {
                assert(name@[0] == 'r' && name@[1] == 'u' && name@[2] == 'n');
                assert(num.len() > 0 && all_digits(num) && digits_val(num) <= usize::MAX);
                assert(spec_run_num(name@) == Some(digits_val(num)));
                assert(spec_run_num(name@) == Some(val as int));
            }
            return Some(val);
        }
        proof {
            lemma_find_underscore_props(rest, i - 3 + 1);
            assert(end == find_underscore(rest, i - 3 + 1));
        }
        let cv = c as u32;
        if cv < 48 || cv > 57 {
            proof {
                assert(!is_digit(rest[i - 3]));
                assert(0 <= i - 3 < num.len());
                assert(num[i - 3] == rest[i - 3]);
                assert(!all_digits(num));
            }
            return None;
        }
        let d = (cv - 48) as usize;
        proof {
            assert(rest.take(i - 3 + 1).drop_last() =~= rest.take(i - 3));
            assert(rest.take(i - 3 + 1).last() == rest[i - 3]);
            assert(is_digit(rest[i - 3]));
            assert(all_digits(rest.take(i - 3 + 1))) by {
                assert(forall|k: int|
                    0 <= k < i - 3 + 1 ==> is_digit(#[trigger] rest.take(i - 3 + 1)[k]));
            }
            assert(d == rest[i - 3] as int - '0' as int);
        }
        if val > usize::MAX / 10 {
            proof {
                vstd::arithmetic::div_mod::lemma_fundamental_div_mod(usize::MAX as int, 10);
                vstd::arithmetic::div_mod::lemma_mod_division_less_than_divisor(
                    usize::MAX as int,
                    10,
                );
                assert(digits_val(rest.take(i - 3 + 1)) > usize::MAX);
                assert(i - 3 + 1 <= end);
                if all_digits(num) {
                    lemma_digits_val_prefix_le(num, i - 3 + 1);
                    assert(num.take(i - 3 + 1) =~= rest.take(i - 3 + 1));
                    assert(digits_val(num) > usize::MAX);
                }
            }
            return None;
        }
        proof {
            vstd::arithmetic::div_mod::lemma_fundamental_div_mod(usize::MAX as int, 10);
            vstd::arithmetic::div_mod::lemma_mod_division_less_than_divisor(usize::MAX as int, 10);
        }
        let v10 = val * 10;
        if d > usize::MAX - v10 {
            proof {
                assert(digits_val(rest.take(i - 3 + 1)) > usize::MAX);
                assert(i - 3 + 1 <= end);
                if all_digits(num) {
                    lemma_digits_val_prefix_le(num, i - 3 + 1);
                    assert(num.take(i - 3 + 1) =~= rest.take(i - 3 + 1));
                    assert(digits_val(num) > usize::MAX);
                }
            }
            return None;
        }
        val = v10 + d;
        i = i + 1;
    }
    // the name ends without an underscore: the number part runs to the end
    proof {
        assert(i - 3 == rest.len());
        assert(end == find_underscore(rest, rest.len() as int));
        assert(end == rest.len());
        assert(num =~= rest.take(i - 3));
    }
    if i == 3 {
        return None;
    }
    Some(val)
}

/// Scans the given file names for the largest `run<digits>_…` number and
/// returns the next free one; a directory without run files starts at zero.
pub fn next_run_number(names: &Vec<String>) -> (r: usize)
    requires
        spec_next_run(names@.map_values(|s: String| s@)) <= usize::MAX,
    ensures
        r == spec_next_run(names@.map_values(|s: String| s@)),
{
    let ghost views = names@.map_values(|s: String| s@);
    let mut best: Option<usize> = None;
    let mut i: usize = 0;
    proof {
        assert(views.take(0) =~= Seq::<Seq<char>>::empty());
    }
    while i < names.len()
        invariant
            i <= names@.len(),
            views == names@.map_values(|s: String| s@),
            match best {
                Some(v) => spec_max_run(views.take(i as int)) == Some(v as int),
                None => spec_max_run(views.take(i as int)) is None,
            },
        decreases names@.len() - i,
    {
        let parsed = parse_run_num(names[i].as_str());
        proof {
            let pre = views.take(i as int);
            let ext = views.take(i + 1);
            assert(ext.drop_last() =~= pre);
            assert(ext.last() == views[i as int]);
        }
        match parsed {
            Some(v) => {
                match best {
                    Some(m) => {
                        if v > m {
                            best = Some(v);
                        }
                    },
                    None => {
                        best = Some(v);
                    },
                }
            },
            None => {},
        }
        i = i + 1;
    }
    proof {
        assert(views.take(names@.len() as int) =~= views);
    }
    match best {
        Some(m) => m + 1,
        None => 0,
    }
}

/// The campaign directory: the output directory, a separator, and `camp`
/// followed by the campaign number.
pub open spec fn spec_camp_dir(output_dir: Seq<char>, campaign_num: nat) -> Seq<char> {
    output_dir + "/camp"@ + spec_dec(campaign_num)
}

/// Renders the campaign directory path.
pub fn camp_dir_name(output_dir: &str, campaign_num: usize) -> (s: String)
    ensures
        s@ == spec_camp_dir(output_dir@, campaign_num as nat),
{
    let mut s = String::from_str(output_dir);
    s.append("/camp");
    let num = u64_to_string(campaign_num as u64);
    s.append(num.as_str());
    proof {
        assert(s@ =~= spec_camp_dir(output_dir@, campaign_num as nat));
    }
    s
}

/// The run prefix inside a campaign directory: subrun file names are derived
/// from it by appending the subrun suffix.
pub open spec fn spec_run_prefix(camp_dir: Seq<char>, run: nat) -> Seq<char> {
    camp_dir + "/run"@ + spec_dec(run)
}

/// Renders the run prefix.
pub fn run_file_prefix(camp_dir: &str, run: usize) -> (s: String)
    ensures
        s@ == spec_run_prefix(camp_dir@, run as nat),
{
    let mut s = String::from_str(camp_dir);
    s.append("/run");
    let num = u64_to_string(run as u64);
    s.append(num.as_str());
    proof {
        assert(s@ =~= spec_run_prefix(camp_dir@, run as nat));
    }
    s
}

} // verus!
