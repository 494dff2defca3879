use vstd::prelude::*;

use crate::error::VideoSourceError;
use crate::source::{VideoSource, VideoSourceAvailable, VideoSourceType};

verus! {

/// The identity strings of `cameras`, in order.
pub open spec fn identities<S: VideoSource>(cameras: Seq<S>) -> Seq<Seq<char>> {
    cameras.map_values(|c: S| c.identity())
}

/// The sources of the three backend kinds, concatenated in the order
/// local, pipeline, redirect.
pub open spec fn aggregated<L, G, R>(local: Seq<L>, gst: Seq<G>, redirect: Seq<R>) -> Seq<
    VideoSourceType<L, G, R>,
> {
    local.map_values(|s: L| VideoSourceType::<L, G, R>::Local(s)) + gst.map_values(
        |s: G| VideoSourceType::<L, G, R>::Gst(s),
    ) + redirect.map_values(|s: R| VideoSourceType::<L, G, R>::Redirect(s))
}

/// `i` is the first position of `cameras` whose identity is `target`.
pub open spec fn is_first_match<S: VideoSource>(cameras: Seq<S>, target: Seq<char>, i: int) -> bool {
    &&& 0 <= i < cameras.len()
    &&& cameras[i].identity() == target
    &&& forall|j: int| 0 <= j < i ==> (#[trigger] cameras[j]).identity() != target
}

/// The strings of `names`, viewed as character sequences.
pub open spec fn string_views(names: Seq<String>) -> Seq<Seq<char>> {
    names.map_values(|n: String| n@)
}

/// Merges the discovery results of the three backend kinds, keeping their
/// order and every entry.
pub fn aggregate_sources<L, G, R>(local: Vec<L>, gst: Vec<G>, redirect: Vec<R>) -> (r: Vec<
    VideoSourceType<L, G, R>,
>)
    ensures
        r@ == aggregated(local@, gst@, redirect@),
        r@.len() == local@.len() + gst@.len() + redirect@.len(),
{
    let mut r: Vec<VideoSourceType<L, G, R>> = Vec::new();
    let mut local = local;
    let mut gst = gst;
    let mut redirect = redirect;
    let ghost l0 = local@;
    let ghost g0 = gst@;
    let ghost r0 = redirect@;
    while local.len() > 0
        invariant
            local@ == l0.skip(r@.len() as int),
            r@ == l0.take(r@.len() as int).map_values(|s: L| VideoSourceType::<L, G, R>::Local(s)),
            r@.len() <= l0.len(),
        decreases local.len(),
    {
        let s = local.remove(0);
        proof {
            assert(s == l0[r@.len() as int]);
        }
        r.push(VideoSourceType::Local(s));
        assert(local@ =~= l0.skip(r@.len() as int));
        assert(r@ =~= l0.take(r@.len() as int).map_values(|s: L| VideoSourceType::<L, G, R>::Local(s)));
    }
    assert(l0.take(l0.len() as int) =~= l0);
    let ghost n1 = r@.len();
    while gst.len() > 0
        invariant
            n1 == l0.len(),
            gst@ == g0.skip(r@.len() - n1),
            r@ == l0.map_values(|s: L| VideoSourceType::<L, G, R>::Local(s)) + g0.take(
                r@.len() - n1,
            ).map_values(|s: G| VideoSourceType::<L, G, R>::Gst(s)),
            n1 <= r@.len() <= n1 + g0.len(),
        decreases gst.len(),
    {
        let s = gst.remove(0);
        proof {
            assert(s == g0[r@.len() - n1]);
        }
        r.push(VideoSourceType::Gst(s));
        assert(gst@ =~= g0.skip(r@.len() - n1));
        assert(r@ =~= l0.map_values(|s: L| VideoSourceType::<L, G, R>::Local(s)) + g0.take(
            r@.len() - n1,
        ).map_values(|s: G| VideoSourceType::<L, G, R>::Gst(s)));
    }
    assert(g0.take(g0.len() as int) =~= g0);
    let ghost n2 = r@.len();
    while redirect.len() > 0
        invariant
            n1 == l0.len(),
            n2 == n1 + g0.len(),
            redirect@ == r0.skip(r@.len() - n2),
            r@ == l0.map_values(|s: L| VideoSourceType::<L, G, R>::Local(s)) + g0.map_values(
                |s: G| VideoSourceType::<L, G, R>::Gst(s),
            ) + r0.take(r@.len() - n2).map_values(|s: R| VideoSourceType::<L, G, R>::Redirect(s)),
            n2 <= r@.len() <= n2 + r0.len(),
        decreases redirect.len(),
    {
        let s = redirect.remove(0);
        proof {
            assert(s == r0[r@.len() - n2]);
        }
        r.push(VideoSourceType::Redirect(s));
        assert(redirect@ =~= r0.skip(r@.len() - n2));
        assert(r@ =~= l0.map_values(|s: L| VideoSourceType::<L, G, R>::Local(s)) + g0.map_values(
            |s: G| VideoSourceType::<L, G, R>::Gst(s),
        ) + r0.take(r@.len() - n2).map_values(|s: R| VideoSourceType::<L, G, R>::Redirect(s)));
    }
    assert(r0.take(r0.len() as int) =~= r0);
    r
}

/// Returns the first source of `cameras` whose identity string is
/// `source_string`; when there is none, a `NotFound` error that carries
/// `source_string` and the identity strings of all of `cameras`.
pub fn find_video_source<S: VideoSource>(cameras: Vec<S>, source_string: &str) -> (r: Result<
    S,
    VideoSourceError,
>)
    ensures
        r is Ok <==> exists|i: int| 0 <= i < cameras@.len() && (#[trigger] cameras@[i]).identity() == source_string@,
        r is Ok ==> exists|i: int| is_first_match(cameras@, source_string@, i) && r->Ok_0 == cameras@[i],
        r is Err ==> match r->Err_0 {
            VideoSourceError::NotFound { attempted, available } => attempted@ == source_string@
                && string_views(available@) == identities(cameras@),
            _ => false,
        },
{
    let target = source_string.to_owned();
    let mut available: Vec<String> = Vec::new();
    let ghost c0 = cameras@;
    let mut remaining = cameras;
    let n = remaining.len();
    let mut i: usize = 0;
    while i < n
        invariant
            remaining@ == c0,
            cameras@ == c0,
            n == c0.len(),
            i <= n,
            target@ == source_string@,
            available@.len() == i,
            string_views(available@) == identities(c0).take(i as int),
            forall|j: int| 0 <= j < i ==> (#[trigger] c0[j]).identity() != target@,
        decreases n - i,
    {
        let id = remaining[i].source_string();
        if id == target {
            assert(is_first_match(c0, source_string@, i as int));
            let found = remaining.remove(i);
            assert(found == c0[i as int]);
            assert(c0[i as int].identity() == source_string@);
            return Ok(found);
        }
        available.push(id);
        assert(string_views(available@) =~= identities(c0).take(i + 1));
        i = i + 1;
    }
    assert(identities(c0).take(n as int) =~= identities(c0));
    Err(VideoSourceError::NotFound { attempted: source_string.to_owned(), available })
}

/// Runs the discovery of every backend kind and merges the results.
pub fn cameras_available<L: VideoSourceAvailable, G: VideoSourceAvailable, R: VideoSourceAvailable>() -> (r: Vec<VideoSourceType<L, G, R>>)
    ensures
        exists|local: Seq<L>, gst: Seq<G>, redirect: Seq<R>|
            r@ == aggregated(local, gst, redirect)
            && r@.len() == local.len() + gst.len() + redirect.len(),
{
    aggregate_sources(L::cameras_available(), G::cameras_available(), R::cameras_available())
}

/// `r` is the outcome of looking up `source_string` in `cameras`: the first
/// source with that identity string, or a `NotFound` error that lists the
/// identity strings of all of `cameras`.
pub open spec fn lookup_outcome<S: VideoSource>(
    cameras: Seq<S>,
    source_string: Seq<char>,
    r: Result<S, VideoSourceError>,
) -> bool {
    &&& r is Ok <==> identities(cameras).contains(source_string)
    &&& r is Ok ==> exists|i: int| is_first_match(cameras, source_string, i) && r->Ok_0 == cameras[i]
    &&& r is Err ==> match r->Err_0 {
        VideoSourceError::NotFound { attempted, available } => attempted@ == source_string
            && string_views(available@) == identities(cameras),
        _ => false,
    }
}

/// Runs discovery afresh and returns the first source whose identity string
/// is `source_string`, or a `NotFound` error listing the discovered ones.
pub fn get_video_source<L, G, R>(source_string: &str) -> (r: Result<VideoSourceType<L, G, R>, VideoSourceError>)
    where
        L: VideoSource + VideoSourceAvailable,
        G: VideoSource + VideoSourceAvailable,
        R: VideoSource + VideoSourceAvailable,
    ensures
        exists|local: Seq<L>, gst: Seq<G>, redirect: Seq<R>|
            lookup_outcome(aggregated(local, gst, redirect), source_string@, r),
        r is Ok ==> r->Ok_0.identity() == source_string@,
        r is Err ==> match r->Err_0 {
            VideoSourceError::NotFound { attempted, available } => attempted@ == source_string@
                && !string_views(available@).contains(source_string@),
            _ => false,
        },
{
    let cameras = cameras_available::<L, G, R>();
    let ghost cs = cameras@;
    let r = find_video_source(cameras, source_string);
    proof {
        if r is Ok {
            let i = choose|i: int| 0 <= i < cs.len() && (#[trigger] cs[i]).identity() == source_string@;
            assert(identities(cs)[i] == source_string@);
        }
        if identities(cs).contains(source_string@) {
            let i = choose|i: int| 0 <= i < identities(cs).len() && identities(cs)[i] == source_string@;
            assert(cs[i].identity() == source_string@);
        }
    }
    r
}

} // verus!
