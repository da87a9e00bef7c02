//! Small string utilities around track paths and identities.

use vstd::prelude::*;

use crate::parser::{dec_value, parse_u64, valid_dec_u64};
use crate::art::{spec_u64_dec, u64_to_string, lemma_u64_dec_value};

verus! {

/// Index just past the last `/` in `s`, or zero if there is none.
pub open spec fn spec_after_last_slash(s: Seq<char>, i: int) -> int
    decreases i,
{
    if i <= 0 {
        0
    } else if s[i - 1] == '/' {
        i
    } else {
        spec_after_last_slash(s, i - 1)
    }
}

/// The file name at the end of a relative path: everything after the last
/// `/`, or the whole string when there is no `/`.
pub fn find_filename_from_relpath(i: &str) -> (r: &str)
    ensures
        r@ == i@.subrange(spec_after_last_slash(i@, i@.len() as int), i@.len() as int),
{
    let n: usize = i.unicode_len();
    let mut j: usize = n;
    while j > 0 && i.get_char(j - 1) != '/'
        invariant
            0 <= j <= n,
            n == i@.len(),
            spec_after_last_slash(i@, n as int) == spec_after_last_slash(i@, j as int),
        decreases j,
    {
        j = j - 1;
    }
    assert(spec_after_last_slash(i@, j as int) == j as int);
    i.substring_char(j, n)
}

/// The object path that names a track id.
pub open spec fn spec_object_path_of(id: u64) -> Seq<char> {
    "/org/musicpd/song/"@ + spec_u64_dec(id as int)
}

/// Render the object path that names a track id.
pub fn id_to_object_path(id: u64) -> (r: String)
    ensures
        r@ == spec_object_path_of(id),
{
    let mut p = "/org/musicpd/song/".to_owned();
    let ds = u64_to_string(id);
    p.append(ds.as_str());
    p
}

/// Read a track id back out of an object path: the fixed prefix followed
/// by a decimal numeral that fits.
pub fn object_path_to_id(path: &str) -> (r: Option<u64>)
    ensures
        match r {
            Some(id) => {
                &&& is_song_object_path(path@)
                &&& id as int == dec_value(path@.skip(18))
            },
            None => !is_song_object_path(path@),
        },
{
    proof {
        reveal_strlit("/org/musicpd/song/");
    }
    let n: usize = path.unicode_len();
    if n < 18 {
        return None;
    }
    let prefix = path.substring_char(0, 18);
    if !crate::response::str_eq(prefix, "/org/musicpd/song/") {
        assert(path@.take(18) != "/org/musicpd/song/"@);
        return None;
    }
    let rest = path.substring_char(18, n);
    assert(rest@ =~= path@.skip(18));
    parse_u64(rest)
}

/// `s` is the object path of some track id.
pub open spec fn is_song_object_path(s: Seq<char>) -> bool {
    &&& s.len() >= 18
    &&& s.take(18) == "/org/musicpd/song/"@
    &&& valid_dec_u64(s.skip(18))
}

/// Round trip: the object path rendered for an id reads back as that id.
pub proof fn lemma_object_path_round_trip(id: u64)
    ensures
        is_song_object_path(spec_object_path_of(id)),
        dec_value(spec_object_path_of(id).skip(18)) == id as int,
{
    reveal_strlit("/org/musicpd/song/");
    lemma_u64_dec_value(id as int);
    let s = spec_object_path_of(id);
    assert("/org/musicpd/song/"@.len() == 18);
    assert(s.take(18) =~= "/org/musicpd/song/"@);
    assert(s.skip(18) =~= spec_u64_dec(id as int));
}

} // verus!
