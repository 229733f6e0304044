//! The generations of the index: one serves while the next is built.
use crate::text::{
    concat, decimal, format_decimal, has_prefix, is_digit, law_decimal_is_digits,
    law_decimal_is_injective, same, starts_with, str_opt, trim, trimmed,
};
use vstd::prelude::*;

verus! {

/// The directory of the index before there is a generation.
pub const DEFAULT_GENERATION: &'static str = "active";

/// The file that names the generation in use.
pub const POINTER_FILE: &'static str = "active_gen.txt";

/// The file in which the name of a generation is written before it is in use.
pub const POINTER_TEMP_FILE: &'static str = "active_gen.txt.tmp";

/// The name of the generation that is begun at a time, in milliseconds since the epoch.
pub open spec fn generation_at(millis: i64) -> Seq<char> {
    if millis < 0 {
        "gen_"@ + "-"@ + decimal((-millis) as nat)
    } else {
        "gen_"@ + decimal(millis as nat)
    }
}

/// The name of the generation that is begun at a time, in milliseconds since the epoch.
pub fn generation_name(millis: i64) -> (r: String)
    ensures
        r@ == generation_at(millis),
{
    if millis < 0 {
        let mut name = "gen_".to_owned();
        name.append("-");
        let below: u64 = (-(millis + 1)) as u64;
        name.append(format_decimal(below + 1).as_str());
        name
    } else {
        concat("gen_", format_decimal(millis as u64).as_str())
    }
}

/// The directory of a pointer file that can be read.
pub fn pointed_at(pointer: &str) -> (r: String)
    ensures
        r@ == trimmed(pointer@),
{
    trim(pointer)
}

/// The directory of the index, by the one that the pointer file names and by whether that is there.
pub open spec fn directory_of(pointed: Option<Seq<char>>, is_there: bool) -> Seq<char> {
    match pointed {
        Some(name) => if is_there {
            name
        } else {
            "active"@
        },
        None => "active"@,
    }
}

/// The directory of the index: the one that the pointer file names, if it is there.
pub fn active_directory(pointed: Option<&str>, is_there: bool) -> (r: String)
    ensures
        r@ == directory_of(str_opt(pointed), is_there),
{
    match pointed {
        Some(name) => if is_there {
            name.to_owned()
        } else {
            DEFAULT_GENERATION.to_owned()
        },
        None => DEFAULT_GENERATION.to_owned(),
    }
}

/// Whether a directory is of a generation that is not in use any more.
pub open spec fn is_stale(folder: Seq<char>, active: Seq<char>) -> bool {
    has_prefix(folder, "gen_"@) && folder != active
}

/// Whether a directory is of a generation that is not in use any more.
pub fn is_stale_generation(folder: &str, active: &str) -> (r: bool)
    ensures
        r == is_stale(folder@, active@),
{
    starts_with(folder, "gen_") && !same(folder, active)
}

/// How many bytes the writer of the index may use.
pub fn writer_budget(megabytes: usize) -> (r: usize)
    requires
        megabytes * 1024 * 1024 <= usize::MAX,
    ensures
        r == megabytes * 1024 * 1024,
{
    megabytes * 1024 * 1024
}

/// The generation in use is never cleaned up, and every other one is; nothing else is touched.
pub proof fn law_only_old_generations_go(folder: Seq<char>, active: Seq<char>, millis: i64)
    ensures
        !is_stale(active, active),
        generation_at(millis) != active ==> is_stale(generation_at(millis), active),
        !has_prefix(folder, "gen_"@) ==> !is_stale(folder, active),
        !is_stale("active"@, active),
{
    reveal_strlit("gen_");
    reveal_strlit("active");
    let name = generation_at(millis);
    assert(name.take(4) =~= "gen_"@);
    assert("active"@.take(4)[0] == 'a');
}

/// The name of a generation is `gen_` and when it was begun; generations that were begun at different
/// times have different names.
pub proof fn law_generations_are_told_apart(millis: i64, other: i64)
    ensures
        millis >= 0 ==> generation_at(millis) == "gen_"@ + decimal(millis as nat),
        millis < 0 ==> generation_at(millis) == "gen_-"@ + decimal((-millis) as nat),
        generation_at(millis) == generation_at(other) ==> millis == other,
{
    reveal_strlit("gen_");
    reveal_strlit("-");
    reveal_strlit("gen_-");
    assert("gen_"@ + "-"@ =~= "gen_-"@);
    if generation_at(millis) == generation_at(other) {
        let a = generation_at(millis).skip(4);
        let b = generation_at(other).skip(4);
        if millis < 0 {
            assert(a =~= "-"@ + decimal((-millis) as nat));
            assert(a[0] == '-');
            assert(a.skip(1) =~= decimal((-millis) as nat));
        } else {
            assert(a =~= decimal(millis as nat));
            law_decimal_is_digits(millis as nat);
            assert(is_digit(a[0]));
        }
        if other < 0 {
            assert(b =~= "-"@ + decimal((-other) as nat));
            assert(b[0] == '-');
            assert(b.skip(1) =~= decimal((-other) as nat));
            law_decimal_is_injective((-other) as nat, (-other) as nat);
        } else {
            assert(b =~= decimal(other as nat));
            law_decimal_is_digits(other as nat);
            assert(is_digit(b[0]));
        }
        if millis < 0 && other < 0 {
            law_decimal_is_injective((-millis) as nat, (-other) as nat);
        } else if millis >= 0 && other >= 0 {
            law_decimal_is_injective(millis as nat, other as nat);
        }
    }
}

/// The generation that the pointer file names is in use as soon as its directory is there. Before, and
/// where nothing is named, it is the directory from before there were generations.
pub proof fn law_the_named_generation_is_used(millis: i64)
    ensures
        directory_of(Some(generation_at(millis)), true) == generation_at(millis),
        directory_of(Some(generation_at(millis)), false) == "active"@,
        directory_of(None, true) == "active"@,
        directory_of(None, false) == "active"@,
        !is_stale(directory_of(Some(generation_at(millis)), true), generation_at(millis)),
{
}

} // verus!
