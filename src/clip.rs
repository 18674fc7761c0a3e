use vstd::prelude::*;

verus! {

/// What one edge of a polygon contributes to the polygon clipped by a plane.
#[derive(Clone, Copy, Debug, PartialEq, Eq, Structural)]
pub enum ClipEmit {
    /// The vertex with this index is inside the plane and stays.
    Keep(usize),
    /// The edge from the first vertex to the second crosses the plane; the
    /// point where it does is a new vertex.
    Cut(usize, usize),
}

/// What the edge from the `k`-th vertex of `poly` to the next one (the last
/// wrapping around to the first) contributes: its start when that is inside,
/// then its crossing point when exactly one of its ends is inside.
pub open spec fn edge_emits(poly: Seq<usize>, inside: Seq<bool>, k: int) -> Seq<ClipEmit> {
    let pre = poly[k];
    let cur = poly[(k + 1) % poly.len() as int];
    let keep = if inside[pre as int] {
        seq![ClipEmit::Keep(pre)]
    } else {
        Seq::empty()
    };
    let cut = if inside[pre as int] != inside[cur as int] {
        seq![ClipEmit::Cut(pre, cur)]
    } else {
        Seq::empty()
    };
    keep + cut
}

/// What the first `n` edges of `poly` contribute, in order.
pub open spec fn pass_emits(poly: Seq<usize>, inside: Seq<bool>, n: nat) -> Seq<ClipEmit>
    decreases n,
{
    if n == 0 {
        Seq::empty()
    } else {
        pass_emits(poly, inside, (n - 1) as nat) + edge_emits(poly, inside, n - 1)
    }
}

/// Every vertex of `poly` has an inside flag.
pub open spec fn poly_ok(poly: Seq<usize>, inside: Seq<bool>) -> bool {
    forall|k: int| 0 <= k < poly.len() ==> (#[trigger] poly[k]) < inside.len()
}

/// One pass of Sutherland-Hodgman clipping: the convex polygon `poly`, given
/// by vertex indices, against one plane, where `inside[v]` says whether
/// vertex `v` lies on the kept side (a distance of exactly 0 counts as
/// inside). The result lists the vertices that stay and the crossings that
/// become new vertices, in the order of the clipped polygon.
pub fn clip_polygon_pass(poly: &Vec<usize>, inside: &Vec<bool>) -> (r: Vec<ClipEmit>)
    requires
        poly_ok(poly@, inside@),
    ensures
        r@ == pass_emits(poly@, inside@, poly@.len()),
{
    let n = poly.len();
    let mut out: Vec<ClipEmit> = Vec::new();
    let mut k: usize = 0;
    while k < n
        invariant
            n == poly@.len(),
            poly_ok(poly@, inside@),
            k <= n,
            out@ == pass_emits(poly@, inside@, k as nat),
        decreases n - k,
    {
        let pre = poly[k];
        let next = if k + 1 == n {
            0
        } else {
            k + 1
        };
        proof {
            if k + 1 == n {
                vstd::arithmetic::div_mod::lemma_mod_self_0(n as int);
            } else {
                vstd::arithmetic::div_mod::lemma_small_mod((k + 1) as nat, n as nat);
            }
        }
        assert(next as int == (k + 1) % n as int);
        let cur = poly[next];
        let ghost before = out@;
        if inside[pre] {
            out.push(ClipEmit::Keep(pre));
        }
        if inside[pre] != inside[cur] {
            out.push(ClipEmit::Cut(pre, cur));
        }
        assert(out@ =~= before + edge_emits(poly@, inside@, k as int));
        k = k + 1;
    }
    out
}

/// A polygon wholly inside the plane passes through unchanged: every vertex
/// stays, in order, and no crossing appears.
pub proof fn lemma_pass_all_inside(poly: Seq<usize>, inside: Seq<bool>, n: nat)
    requires
        poly_ok(poly, inside),
        n <= poly.len(),
        forall|k: int| 0 <= k < poly.len() ==> inside[#[trigger] poly[k] as int],
    ensures
        pass_emits(poly, inside, n) == Seq::new(n, |k: int| ClipEmit::Keep(poly[k])),
    decreases n,
{
    if n > 0 {
        lemma_pass_all_inside(poly, inside, (n - 1) as nat);
        let k = n - 1;
        let cur = poly[(k + 1) % poly.len() as int];
        assert(inside[poly[k] as int]);
        assert(inside[cur as int]);
        assert(pass_emits(poly, inside, n) =~= Seq::new(n, |k: int| ClipEmit::Keep(poly[k])));
    }
}

/// A polygon wholly outside the plane is clipped away: nothing stays.
pub proof fn lemma_pass_all_outside(poly: Seq<usize>, inside: Seq<bool>, n: nat)
    requires
        poly_ok(poly, inside),
        n <= poly.len(),
        forall|k: int| 0 <= k < poly.len() ==> !inside[#[trigger] poly[k] as int],
    ensures
        pass_emits(poly, inside, n).len() == 0,
    decreases n,
{
    if n > 0 {
        lemma_pass_all_outside(poly, inside, (n - 1) as nat);
        let k = n - 1;
        let cur = poly[(k + 1) % poly.len() as int];
        assert(!inside[poly[k] as int]);
        assert(!inside[cur as int]);
    }
}

/// The triangles of the fan from the first vertex of the convex polygon
/// `poly`: three indices per triangle, `(poly[0], poly[k + 1], poly[k + 2])`
/// for the `k`-th.
pub fn fan_triangulate(poly: &Vec<usize>) -> (r: Vec<usize>)
    requires
        poly@.len() >= 3,
    ensures
        r@.len() == 3 * (poly@.len() - 2),
        forall|k: int|
            0 <= k < poly@.len() - 2 ==> #[trigger] r@[3 * k] == poly@[0] && r@[3 * k + 1]
                == poly@[k + 1] && r@[3 * k + 2] == poly@[k + 2],
{
    let n = poly.len();
    let mut out: Vec<usize> = Vec::new();
    let mut i: usize = 2;
    while i < n
        invariant
            n == poly@.len(),
            2 <= i <= n,
            out@.len() == 3 * (i - 2),
            forall|k: int|
                0 <= k < i - 2 ==> #[trigger] out@[3 * k] == poly@[0] && out@[3 * k + 1]
                    == poly@[k + 1] && out@[3 * k + 2] == poly@[k + 2],
        decreases n - i,
    {
        out.push(poly[0]);
        out.push(poly[i - 1]);
        out.push(poly[i]);
        proof {
            assert forall|k: int| 0 <= k < i - 1 implies #[trigger] out@[3 * k] == poly@[0] && out@[3
                * k + 1] == poly@[k + 1] && out@[3 * k + 2] == poly@[k + 2] by {
                if k < i - 2 {
                    assert(out@[3 * k] == poly@[0]);
                }
            }
        }
        i = i + 1;
    }
    out
}

} // verus!
