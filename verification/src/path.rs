//! The path resolver: turns a virtual target directory of the form
//! `/<dev_name>/<segments...>` into an absolute path under the configured
//! volume, and rejects anything that could escape it.
//!
//! The virtual path is split on `/`; empty segments (doubled or trailing
//! separators) collapse. The first segment names a volume; it and every
//! later segment must be a plain name: `.` and `..` are not, and are
//! rejected, so no traversal can be smuggled in.

use crate::config::RfsConfig;
use vstd::prelude::*;

verus! {

/// Why a virtual path was rejected.
#[derive(Debug, Clone, Copy, PartialEq, Eq, Structural)]
pub enum PathError {
    /// The path does not start with the separator.
    NotAbsolute,
    /// The path holds no volume name.
    MissingDevName,
    /// The volume position holds something that is not a plain name.
    BadDevName,
    /// No configured volume carries that name.
    UnknownDevice,
    /// A later segment is not a plain name.
    BadComponent,
}

/// Length of the leading run of non-separator characters.
pub open spec fn first_seg_len(s: Seq<char>) -> nat
    decreases s.len(),
{
    if s.len() == 0 || s[0] == '/' {
        0
    } else {
        1 + first_seg_len(s.drop_first())
    }
}

proof fn lemma_first_seg_len_le(s: Seq<char>)
    ensures
        first_seg_len(s) <= s.len(),
    decreases s.len(),
{
    if s.len() > 0 && s[0] != '/' {
        lemma_first_seg_len_le(s.drop_first());
    }
}

/// The non-empty segments of a path, in order, with separator runs
/// collapsed.
pub open spec fn spec_segments(s: Seq<char>) -> Seq<Seq<char>>
    decreases s.len(),
    via spec_segments_decreases
{
    if s.len() == 0 {
        seq![]
    } else if s[0] == '/' {
        spec_segments(s.drop_first())
    } else {
        seq![s.take(first_seg_len(s) as int)] + spec_segments(s.skip(first_seg_len(s) as int))
    }
}

#[via_fn]
proof fn spec_segments_decreases(s: Seq<char>) {
    lemma_first_seg_len_le(s);
}

/// A plain name: a non-empty segment that is neither `.` nor `..`.
pub open spec fn spec_is_normal(seg: Seq<char>) -> bool {
    seg.len() > 0 && seg != "."@ && seg != ".."@
}

/// Whether `seg` is a plain name.
pub fn is_normal(seg: &str) -> (r: bool)
    ensures
        r == spec_is_normal(seg@),
{
    proof {
        reveal_strlit(".");
        reveal_strlit("..");
    }
    let n = seg.unicode_len();
    if n == 0 {
        return false;
    }
    if n == 1 && seg.get_char(0) == '.' {
        proof {
            assert(seg@ =~= "."@);
        }
        return false;
    }
    if n == 2 && seg.get_char(0) == '.' && seg.get_char(1) == '.' {
        proof {
            assert(seg@ =~= ".."@);
        }
        return false;
    }
    proof {
        assert(seg@ != "."@ && seg@ != ".."@);
    }
    true
}

proof fn lemma_first_seg_len_eq(t: Seq<char>, m: int)
    requires
        0 <= m <= t.len(),
        forall|k: int| 0 <= k < m ==> #[trigger] t[k] != '/',
        m == t.len() || t[m] == '/',
    ensures
        first_seg_len(t) == m,
    decreases m,
{
    if m == 0 {
    } else {
        assert(t[0] != '/');
        lemma_first_seg_len_eq(t.drop_first(), m - 1);
    }
}

/// The views of a vector of strings.
pub open spec fn seg_views(ts: Seq<String>) -> Seq<Seq<char>> {
    ts.map_values(|t: String| t@)
}

/// Splits a path into its non-empty segments.
pub fn split_segments(s: &str) -> (segs: Vec<String>)
    ensures
        seg_views(segs@) == spec_segments(s@),
{
    let n = s.unicode_len();
    let mut segs: Vec<String> = Vec::new();
    let mut i: usize = 0;
    proof {
        assert(s@.skip(0) =~= s@);
        assert(seg_views(segs@) =~= Seq::<Seq<char>>::empty());
    }
    while i < n
        invariant
            n == s@.len(),
            i <= n,
            seg_views(segs@) + spec_segments(s@.skip(i as int)) =~= spec_segments(s@),
        decreases n - i,
    {
        if s.get_char(i) == '/' {
            proof {
                assert(s@.skip(i as int).drop_first() =~= s@.skip(i + 1));
            }
            i = i + 1;
        } else {
            let start = i;
            let mut j: usize = i + 1;
            while j < n && s.get_char(j) != '/'
                invariant
                    n == s@.len(),
                    start < j <= n,
                    forall|k: int| start <= k < j ==> #[trigger] s@[k] != '/',
                decreases n - j,
            {
                j = j + 1;
            }
            let seg_slice = s.substring_char(start, j);
            let seg = seg_slice.to_owned();
            let ghost prev = segs@;
            segs.push(seg);
            proof {
                let t = s@.skip(start as int);
                let m = j - start;
                assert forall|k: int| 0 <= k < m implies #[trigger] t[k] != '/' by {
                    assert(t[k] == s@[start + k]);
                }
                if m < t.len() {
                    assert(t[m as int] == s@[j as int]);
                }
                lemma_first_seg_len_eq(t, m as int);
                assert(t.take(m as int) =~= s@.subrange(start as int, j as int));
                assert(t.skip(m as int) =~= s@.skip(j as int));
                assert(spec_segments(s@.skip(start as int)) == seq![seg@] + spec_segments(
                    s@.skip(j as int),
                ));
                assert(seg_views(segs@) =~= seg_views(prev).push(seg@));
                assert(seg_views(segs@) + spec_segments(s@.skip(j as int)) =~= seg_views(prev) + (
                seq![seg@] + spec_segments(s@.skip(j as int))));
            }
            i = j;
        }
    }
    proof {
        assert(s@.skip(n as int) =~= Seq::<char>::empty());
        assert(seg_views(segs@) + spec_segments(s@.skip(n as int)) =~= seg_views(segs@));
    }
    segs
}

/// The first configured volume carrying `name`.
pub open spec fn spec_find_volume(vols: Seq<RfsConfig>, name: Seq<char>) -> Option<RfsConfig>
    decreases vols.len(),
{
    if vols.len() == 0 {
        None
    } else if vols[0].dev_name@ == name {
        Some(vols[0])
    } else {
        spec_find_volume(vols.drop_first(), name)
    }
}

/// Looks `name` up in the volume table, first match wins.
fn find_volume<'a>(vols: &'a Vec<RfsConfig>, name: &str) -> (r: Option<&'a RfsConfig>)
    ensures
        match r {
            Some(v) => spec_find_volume(vols@, name@) == Some(*v),
            None => spec_find_volume(vols@, name@) is None,
        },
{
    let mut i: usize = 0;
    proof {
        assert(vols@.skip(0) =~= vols@);
    }
    while i < vols.len()
        invariant
            i <= vols@.len(),
            spec_find_volume(vols@, name@) == spec_find_volume(vols@.skip(i as int), name@),
        decreases vols@.len() - i,
    {
        proof {
            assert(vols@.skip(i as int)[0] == vols@[i as int]);
            assert(vols@.skip(i as int).drop_first() =~= vols@.skip(i + 1));
        }
        if crate::hashing::str_eq(vols[i].dev_name.as_str(), name) {
            return Some(&vols[i]);
        }
        i = i + 1;
    }
    proof {
        assert(vols@.skip(vols@.len() as int) =~= Seq::<RfsConfig>::empty());
    }
    None
}

/// A base path extended by each segment in turn, one separator before each.
pub open spec fn spec_join(base: Seq<char>, segs: Seq<Seq<char>>) -> Seq<char>
    decreases segs.len(),
{
    if segs.len() == 0 {
        base
    } else {
        spec_join(base + seq!['/'] + segs[0], segs.drop_first())
    }
}

/// Resolves a virtual path against the volume table.
///
/// The path must be absolute; its first segment names a volume and every
/// segment must be a plain name. The result is the volume's bound path with
/// the remaining segments appended. The uploaded file's name is not part of
/// the input: the caller appends it afterwards, so it can never act as a
/// path segment here.
pub fn resolve_and_validate_path(target_dir: &str, volumes: &Vec<RfsConfig>) -> (r: Result<
    String,
    PathError,
>)
    ensures
        ({
            let s = target_dir@;
            let segs = spec_segments(s);
            match r {
                Ok(p) => {
                    &&& s.len() > 0 && s[0] == '/'
                    &&& segs.len() >= 1
                    &&& forall|i: int| 0 <= i < segs.len() ==> spec_is_normal(#[trigger] segs[i])
                    &&& spec_find_volume(volumes@, segs[0]) matches Some(v) && p@ == spec_join(
                        v.bind_path@,
                        segs.drop_first(),
                    )
                },
                Err(e) => {
                    &&& e == PathError::NotAbsolute <==> (s.len() == 0 || s[0] != '/')
                    &&& e == PathError::MissingDevName <==> (s.len() > 0 && s[0] == '/'
                        && segs.len() == 0)
                    &&& e == PathError::BadDevName <==> (s.len() > 0 && s[0] == '/' && segs.len()
                        >= 1 && !spec_is_normal(segs[0]))
                    &&& e == PathError::UnknownDevice <==> (s.len() > 0 && s[0] == '/'
                        && segs.len() >= 1 && spec_is_normal(segs[0]) && spec_find_volume(
                        volumes@,
                        segs[0],
                    ) is None)
                    &&& e == PathError::BadComponent ==> exists|i: int|
                        1 <= i < segs.len() && !spec_is_normal(#[trigger] segs[i])
                },
            }
        }),
{
    let n = target_dir.unicode_len();
    if n == 0 || target_dir.get_char(0) != '/' {
        return Err(PathError::NotAbsolute);
    }
    let segs = split_segments(target_dir);
    if segs.len() == 0 {
        proof {
            assert(spec_segments(target_dir@).len() == 0);
        }
        return Err(PathError::MissingDevName);
    }
    proof {
        assert(seg_views(segs@)[0] == segs@[0]@);
    }
    if !is_normal(segs[0].as_str()) {
        return Err(PathError::BadDevName);
    }
    let vol = match find_volume(volumes, segs[0].as_str()) {
        Some(v) => v,
        None => {
            return Err(PathError::UnknownDevice);
        },
    };
    let mut out = vol.bind_path.clone();
    let ghost base = vol.bind_path@;
    let ghost all_segs = seg_views(segs@);
    let mut i: usize = 1;
    proof {
        reveal_strlit("/");
    }
    while i < segs.len()
        invariant
            1 <= i <= segs@.len(),
            all_segs == seg_views(segs@),
            all_segs == spec_segments(target_dir@),
            target_dir@.len() > 0 && target_dir@[0] == '/',
            all_segs.len() >= 1 && spec_is_normal(all_segs[0]),
            spec_find_volume(volumes@, all_segs[0]) == Some(*vol),
            base == vol.bind_path@,
            forall|k: int| 1 <= k < i ==> spec_is_normal(#[trigger] all_segs[k]),
            spec_join(out@, all_segs.skip(i as int)) == spec_join(base, all_segs.skip(1)),
        decreases segs@.len() - i,
    {
        proof {
            reveal_strlit("/");
            assert(all_segs[i as int] == segs@[i as int]@);
        }
        if !is_normal(segs[i].as_str()) {
            proof {
                assert(!spec_is_normal(all_segs[i as int]));
            }
            return Err(PathError::BadComponent);
        }
        let ghost rest = all_segs.skip(i as int);
        out.append("/");
        out.append(segs[i].as_str());
        proof {
            assert("/"@ =~= seq!['/']);
            assert(rest[0] == all_segs[i as int]);
            assert(rest.drop_first() =~= all_segs.skip(i + 1));
        }
        i = i + 1;
    }
    proof {
        assert(all_segs.skip(all_segs.len() as int) =~= Seq::<Seq<char>>::empty());
        assert(all_segs.skip(1) =~= all_segs.drop_first());
    }
    Ok(out)
}

} // verus!
