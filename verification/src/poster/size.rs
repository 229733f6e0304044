//! The sizes in which posters are kept.
use crate::text::{
    basic_lowercased, is_basic_text, law_texts_are_trimmed_once, law_whitespace_is_cut_off,
    lowercased, same, str_opt, trim, trimmed, whitespace,
};
use vstd::prelude::*;

verus! {

pub const POSTER_SIZE_XS: &'static str = "w92";

pub const POSTER_SIZE_SM: &'static str = "w154";

/// The size for lists of hits.
pub const POSTER_SIZE_MD: &'static str = "w185";

pub const POSTER_SIZE_LG: &'static str = "w342";

pub const POSTER_SIZE_XL: &'static str = "w500";

pub const POSTER_SIZE_ORIG: &'static str = "original";

/// The size that a width or its short name stands for.
pub open spec fn size_named(name: Seq<char>) -> Option<Seq<char>> {
    if name == "xs"@ || name == "w92"@ {
        Some("w92"@)
    } else if name == "sm"@ || name == "w154"@ {
        Some("w154"@)
    } else if name == "md"@ || name == "w185"@ {
        Some("w185"@)
    } else if name == "lg"@ || name == "w342"@ {
        Some("w342"@)
    } else if name == "xl"@ || name == "w500"@ {
        Some("w500"@)
    } else if name == "original"@ {
        Some("original"@)
    } else {
        None
    }
}

/// The size that is asked for by a name in lower case: the full size has a short name too.
pub open spec fn size_asked(clean: Seq<char>) -> Option<Seq<char>> {
    if clean == "orig"@ {
        Some("original"@)
    } else {
        size_named(clean)
    }
}

/// The size that is used: the one asked for by a name in lower case, else the default one, else
/// the one for lists.
pub open spec fn size_chosen(clean: Option<Seq<char>>, default_size: Seq<char>) -> Seq<char> {
    let wanted = match clean {
        Some(name) => size_asked(name),
        None => None,
    };
    match (wanted, size_named(default_size)) {
        (Some(size), _) => size,
        (None, Some(size)) => size,
        (None, None) => "w185"@,
    }
}

/// The size that is used. Names are taken in any case and with whitespace round them.
pub open spec fn size_used(asked: Option<Seq<char>>, default_size: Seq<char>) -> Seq<char> {
    size_chosen(
        match asked {
            Some(name) => Some(lowercased(trimmed(name))),
            None => None,
        },
        default_size,
    )
}

/// The size that a width or its short name stands for.
pub fn named_size(name: &str) -> (r: Option<&'static str>)
    ensures
        str_opt(r) == size_named(name@),
{
    if same(name, "xs") || same(name, "w92") {
        Some(POSTER_SIZE_XS)
    } else if same(name, "sm") || same(name, "w154") {
        Some(POSTER_SIZE_SM)
    } else if same(name, "md") || same(name, "w185") {
        Some(POSTER_SIZE_MD)
    } else if same(name, "lg") || same(name, "w342") {
        Some(POSTER_SIZE_LG)
    } else if same(name, "xl") || same(name, "w500") {
        Some(POSTER_SIZE_XL)
    } else if same(name, "original") {
        Some(POSTER_SIZE_ORIG)
    } else {
        None
    }
}

/// The size that is used: the one asked for by a name in lower case, else the default one, else
/// the one for lists.
pub fn choose_size(clean: Option<&str>, default_size: &str) -> (r: &'static str)
    ensures
        r@ == size_chosen(str_opt(clean), default_size@),
{
    match clean {
        Some(name) => {
            if same(name, "orig") {
                return POSTER_SIZE_ORIG;
            }
            match named_size(name) {
                Some(size) => {
                    return size;
                },
                None => {},
            }
        },
        None => {},
    }
    match named_size(default_size) {
        Some(size) => size,
        None => POSTER_SIZE_MD,
    }
}

/// The size that is used: the one asked for, else the default one, else the one for lists. It is the
/// same when the name is trimmed and in lower case before, and a name that stands for no size counts
/// as none.
pub fn normalize_poster_size(size_param: Option<&str>, default_size: &str) -> (r: &'static str)
    ensures
        r@ == size_used(str_opt(size_param), default_size@),
        size_param matches Some(name) ==> ({
            let clean = lowercased(trimmed(name@));
            &&& r@ == size_used(Some(clean), default_size@)
            &&& size_asked(clean) is None ==> r@ == size_used(None, default_size@)
        }),
{
    match size_param {
        Some(name) => {
            let bare = trim(name);
            let clean = bare.as_str().to_lowercase();
            proof {
                law_texts_are_trimmed_once(name@);
            }
            choose_size(Some(clean.as_str()), default_size)
        },
        None => choose_size(None, default_size),
    }
}

// ---------------------------------------------------------------------------
// Laws
// ---------------------------------------------------------------------------

/// Whether a text is one of the six sizes.
pub open spec fn is_size(size: Seq<char>) -> bool {
    size == "w92"@ || size == "w154"@ || size == "w185"@ || size == "w342"@ || size == "w500"@
        || size == "original"@
}

/// Every size in use is one of the six, whatever is asked for.
pub proof fn law_sizes_are_known(clean: Option<Seq<char>>, default_size: Seq<char>)
    ensures
        is_size(size_chosen(clean, default_size)),
{
}

/// A name that stands for no size counts as none, and a default that stands for none as the size
/// for lists.
pub proof fn law_unknown_sizes_are_passed_over(clean: Seq<char>, default_size: Seq<char>)
    ensures
        size_asked(clean) is None ==> size_chosen(Some(clean), default_size) == size_chosen(
            None,
            default_size,
        ),
        size_named(default_size) is None ==> size_chosen(None, default_size) == "w185"@,
{
}

proof fn lemma_sizes_are_clean(size: Seq<char>)
    requires
        is_size(size),
    ensures
        lowercased(trimmed(size)) == size,
        size_asked(size) == Some(size),
        size_named(size) == Some(size),
{
    reveal_strlit("w92");
    reveal_strlit("w154");
    reveal_strlit("w185");
    reveal_strlit("w342");
    reveal_strlit("w500");
    reveal_strlit("original");
    reveal_strlit("orig");
    reveal_strlit("xs");
    reveal_strlit("sm");
    reveal_strlit("md");
    reveal_strlit("lg");
    reveal_strlit("xl");
    assert("w154"@[2] == '5' && "w185"@[2] == '8' && "w342"@[2] == '4' && "w500"@[2] == '0'
        && "orig"@[2] == 'i');
    lemma_names_are_clean(size);
}

/// A size in use is used again, whether it is asked for or the default: choosing a size again
/// changes nothing.
pub proof fn law_sizes_are_chosen_once(
    clean: Option<Seq<char>>,
    default_size: Seq<char>,
    other_default: Seq<char>,
)
    ensures
        ({
            let size = size_chosen(clean, default_size);
            &&& size_chosen(Some(size), other_default) == size
            &&& size_used(Some(size), other_default) == size
            &&& size_used(None, size) == size
        }),
{
    law_sizes_are_known(clean, default_size);
    lemma_sizes_are_clean(size_chosen(clean, default_size));
}

proof fn lemma_names_are_clean(clean: Seq<char>)
    requires
        size_asked(clean) is Some,
    ensures
        lowercased(trimmed(clean)) == clean,
{
    reveal_strlit("w92");
    reveal_strlit("w154");
    reveal_strlit("w185");
    reveal_strlit("w342");
    reveal_strlit("w500");
    reveal_strlit("original");
    reveal_strlit("orig");
    reveal_strlit("xs");
    reveal_strlit("sm");
    reveal_strlit("md");
    reveal_strlit("lg");
    reveal_strlit("xl");
    assert(basic_lowercased(clean) =~= clean);
    assert(is_basic_text(clean));
}

/// A name in lower case that stands for a size needs no trimming and no lower case: what it stands
/// for is used when it is asked for.
pub proof fn law_names_are_taken_as_they_are(clean: Seq<char>, default_size: Seq<char>)
    requires
        size_asked(clean) is Some,
    ensures
        size_used(Some(clean), default_size) == size_chosen(Some(clean), default_size),
{
    lemma_names_are_clean(clean);
}

/// The sizes are asked for by their widths or by their short names; a default has no other names than
/// these but `orig`.
pub proof fn law_sizes_have_names()
    ensures
        size_asked("xs"@) == Some("w92"@) && size_asked("w92"@) == Some("w92"@),
        size_asked("sm"@) == Some("w154"@) && size_asked("w154"@) == Some("w154"@),
        size_asked("md"@) == Some("w185"@) && size_asked("w185"@) == Some("w185"@),
        size_asked("lg"@) == Some("w342"@) && size_asked("w342"@) == Some("w342"@),
        size_asked("xl"@) == Some("w500"@) && size_asked("w500"@) == Some("w500"@),
        size_asked("orig"@) == Some("original"@) && size_asked("original"@) == Some("original"@),
        forall|name: Seq<char>|
            name != "orig"@ ==> #[trigger] size_named(name) == size_asked(name),
        size_named("orig"@) is None,
{
    lemma_sizes_are_clean("w92"@);
    lemma_sizes_are_clean("w154"@);
    lemma_sizes_are_clean("w185"@);
    lemma_sizes_are_clean("w342"@);
    lemma_sizes_are_clean("w500"@);
    lemma_sizes_are_clean("original"@);
    reveal_strlit("w92");
    reveal_strlit("w154");
    reveal_strlit("w185");
    reveal_strlit("w342");
    reveal_strlit("w500");
    reveal_strlit("original");
    reveal_strlit("orig");
    reveal_strlit("xs");
    reveal_strlit("sm");
    reveal_strlit("md");
    reveal_strlit("lg");
    reveal_strlit("xl");
    assert("xs"@[0] == 'x' && "xs"@[1] == 's' && "sm"@[0] == 's' && "md"@[0] == 'm' && "lg"@[0]
        == 'l' && "xl"@[1] == 'l' && "xl"@[0] == 'x');
    assert("w154"@[2] == '5' && "w185"@[2] == '8' && "w342"@[2] == '4' && "w500"@[2] == '0'
        && "orig"@[2] == 'i');
}

/// The size that is asked for counts. Where it stands for none, or none is asked for, the default
/// counts, and where that stands for none either, the size for lists.
pub proof fn law_what_is_asked_for_comes_first(
    clean: Seq<char>,
    default_size: Seq<char>,
    size: Seq<char>,
)
    ensures
        size_asked(clean) == Some(size) ==> size_chosen(Some(clean), default_size) == size,
        size_asked(clean) is None && size_named(default_size) == Some(size) ==> size_chosen(
            Some(clean),
            default_size,
        ) == size,
        size_named(default_size) == Some(size) ==> size_chosen(None, default_size) == size,
        size_asked(clean) is None && size_named(default_size) is None ==> size_chosen(
            Some(clean),
            default_size,
        ) == "w185"@,
        size_named(default_size) is None ==> size_chosen(None, default_size) == "w185"@,
{
}

/// Whitespace round a name and the case of its letters do not count.
pub proof fn law_sizes_are_asked_for_in_any_case(
    before: Seq<char>,
    name: Seq<char>,
    behind: Seq<char>,
    default_size: Seq<char>,
)
    requires
        forall|i: int| 0 <= i < before.len() ==> whitespace(#[trigger] before[i]),
        forall|i: int| 0 <= i < behind.len() ==> whitespace(#[trigger] behind[i]),
        name.len() > 0 ==> !whitespace(name[0]) && !whitespace(name.last()),
    ensures
        size_used(Some(before + name + behind), default_size) == size_chosen(
            Some(lowercased(name)),
            default_size,
        ),
        size_used(None, default_size) == size_chosen(None, default_size),
{
    law_whitespace_is_cut_off(before, name, behind);
}

} // verus!
