//! The scene aggregate: an owned collection of primitives answering the
//! same intersection query by a nearest-hit reduction.

use vstd::prelude::*;
use crate::hit::{
    in_interval, lemma_sphere_hit_monotonic, lemma_sphere_hit_props, lemma_sphere_hit_widen,
    opt_view, sphere_hit_spec, sphere_wf, HitRecord, HitV, Sphere, NORMAL_BOUND,
};
use crate::ray::{dir_ok, ray_wf, Ray, GEOM_BOUND, POINT_BOUND, T_BOUND};
use crate::vec3::{bounded, V3};

verus! {

/// Every member of the collection is a well-formed sphere.
pub open spec fn scene_wf(s: Seq<Sphere>) -> bool {
    forall|i: int| 0 <= i < s.len() ==> sphere_wf(#[trigger] s[i])
}

/// What `Scene::hit` returns: the fold of the nearest-hit reduction over
/// the members in order, each queried with `t_max` shrunk to the best
/// parameter found so far.
pub open spec fn scene_hit_spec(s: Seq<Sphere>, o: V3, d: V3, t_min: int, t_max: int) -> Option<HitV>
    decreases s.len(),
{
    if s.len() == 0 {
        Option::<HitV>::None
    } else {
        let prefix = scene_hit_spec(s.drop_last(), o, d, t_min, t_max);
        let cur_max = match prefix {
            Option::None => t_max,
            Option::Some(h) => h.t,
        };
        match sphere_hit_spec(s.last(), o, d, t_min, cur_max) {
            Option::None => prefix,
            Option::Some(h) => Option::Some(h),
        }
    }
}

/// An ordered collection of owned primitives, itself answering the
/// intersection query over all of its members.
pub struct Scene {
    pub spheres: Vec<Sphere>,
}

impl Scene {
    /// An empty scene.
    pub fn new() -> (s: Scene)
        ensures
            s.spheres@.len() == 0,
    {
        Scene { spheres: Vec::new() }
    }

    /// Takes ownership of a primitive and appends it to the collection.
    pub fn add(&mut self, sphere: Sphere)
        ensures
            final(self).spheres@ == old(self).spheres@.push(sphere),
    {
        self.spheres.push(sphere);
    }

    /// Nearest intersection over all members with parameter in
    /// `(t_min, t_max]`, or none; pinned exactly by `scene_hit_spec`.
    pub fn hit(&self, ray: &Ray, t_min: i64, t_max: i64) -> (r: Option<HitRecord>)
        requires
            scene_wf(self.spheres@),
            ray_wf(*ray),
            -T_BOUND <= t_min <= t_max <= T_BOUND,
        ensures
            opt_view(r) == scene_hit_spec(self.spheres@, ray.origin@, ray.dir@, t_min as int, t_max as int),
    {
        let n = self.spheres.len();
        let mut best: Option<HitRecord> = None;
        let mut cur_max: i64 = t_max;
        let mut i: usize = 0;
        while i < n
            invariant
                0 <= i <= n,
                n == self.spheres@.len(),
                scene_wf(self.spheres@),
                ray_wf(*ray),
                -T_BOUND <= t_min <= t_max <= T_BOUND,
                opt_view(best) == scene_hit_spec(
                    self.spheres@.subrange(0, i as int),
                    ray.origin@,
                    ray.dir@,
                    t_min as int,
                    t_max as int,
                ),
                cur_max == (match opt_view(best) {
                    Option::None => t_max as int,
                    Option::Some(h) => h.t,
                }),
                t_min <= cur_max <= t_max,
            decreases n - i,
        {
            let ghost pre = self.spheres@.subrange(0, i as int);
            let sph = self.spheres[i];
            let res = sph.hit(ray, t_min, cur_max);
            proof {
                assert(self.spheres@.subrange(0, i + 1).drop_last() =~= pre);
                assert(self.spheres@.subrange(0, i + 1).last() == self.spheres@[i as int]);
            }
            match res {
                Option::Some(h) => {
                    proof {
                        assert(opt_view(res) == sphere_hit_spec(
                            self.spheres@[i as int],
                            ray.origin@,
                            ray.dir@,
                            t_min as int,
                            cur_max as int,
                        ));
                    }
                    cur_max = h.t;
                    best = Some(h);
                },
                Option::None => {},
            }
            i += 1;
        }
        proof {
            assert(self.spheres@.subrange(0, n as int) =~= self.spheres@);
        }
        best
    }
}

/// The scene's answer is the nearest-hit reduction over its members: it
/// is none exactly when every member reports none over the full
/// interval, and otherwise it is a record some member reports over the
/// full interval, with a parameter no larger than any member's.  The
/// minimum does not depend on the order of the members.
pub proof fn lemma_scene_hit_props(s: Seq<Sphere>, o: V3, d: V3, t_min: int, t_max: int)
    requires
        scene_wf(s),
        bounded(o, GEOM_BOUND as int),
        bounded(d, GEOM_BOUND as int),
        dir_ok(d),
        -T_BOUND <= t_min <= t_max <= T_BOUND,
    ensures
        (match scene_hit_spec(s, o, d, t_min, t_max) {
            Option::Some(h) => {
                &&& in_interval(h.t, t_min, t_max)
                &&& bounded(h.point, POINT_BOUND as int)
                &&& bounded(h.normal, NORMAL_BOUND as int)
                &&& exists|i: int|
                    0 <= i < s.len() && #[trigger] sphere_hit_spec(s[i], o, d, t_min, t_max)
                        == Option::Some(h)
                &&& forall|i: int|
                    0 <= i < s.len() ==> (match #[trigger] sphere_hit_spec(
                        s[i],
                        o,
                        d,
                        t_min,
                        t_max,
                    ) {
                        Option::Some(hi) => h.t <= hi.t,
                        Option::None => true,
                    })
            },
            Option::None => forall|i: int|
                0 <= i < s.len() ==> #[trigger] sphere_hit_spec(s[i], o, d, t_min, t_max)
                    == Option::<HitV>::None,
        }),
    decreases s.len(),
{
    if s.len() > 0 {
        let pre_seq = s.drop_last();
        assert(forall|i: int| 0 <= i < pre_seq.len() ==> pre_seq[i] == s[i]);
        lemma_scene_hit_props(pre_seq, o, d, t_min, t_max);
        let pre = scene_hit_spec(pre_seq, o, d, t_min, t_max);
        let cur_max = match pre {
            Option::None => t_max,
            Option::Some(h) => h.t,
        };
        lemma_sphere_hit_props(s.last(), o, d, t_min, cur_max);
        lemma_sphere_hit_widen(s.last(), o, d, t_min, cur_max, t_max);
        let lastres = sphere_hit_spec(s.last(), o, d, t_min, cur_max);
        assert(s.last() == s[s.len() - 1]);
        match lastres {
            Option::Some(h) => {
                assert(sphere_hit_spec(s[s.len() - 1], o, d, t_min, t_max) == Option::Some(h));
                lemma_sphere_hit_props(s.last(), o, d, t_min, t_max);
                assert forall|i: int| 0 <= i < s.len() implies (match #[trigger] sphere_hit_spec(
                    s[i],
                    o,
                    d,
                    t_min,
                    t_max,
                ) {
                    Option::Some(hi) => h.t <= hi.t,
                    Option::None => true,
                }) by {
                    if i < s.len() - 1 {
                        assert(sphere_hit_spec(pre_seq[i], o, d, t_min, t_max)
                            == sphere_hit_spec(s[i], o, d, t_min, t_max));
                    }
                }
            },
            Option::None => {
                match pre {
                    Option::Some(hp) => {
                        let i0 = choose|i: int|
                            0 <= i < pre_seq.len() && #[trigger] sphere_hit_spec(
                                pre_seq[i],
                                o,
                                d,
                                t_min,
                                t_max,
                            ) == Option::Some(hp);
                        assert(sphere_hit_spec(s[i0], o, d, t_min, t_max) == Option::Some(hp));
                        assert forall|i: int| 0 <= i < s.len() implies (match
                            #[trigger] sphere_hit_spec(s[i], o, d, t_min, t_max) {
                            Option::Some(hi) => hp.t <= hi.t,
                            Option::None => true,
                        }) by {
                            if i < s.len() - 1 {
                                assert(sphere_hit_spec(pre_seq[i], o, d, t_min, t_max)
                                    == sphere_hit_spec(s[i], o, d, t_min, t_max));
                            } else {
                                lemma_sphere_hit_props(s.last(), o, d, t_min, t_max);
                            }
                        }
                    },
                    Option::None => {
                        assert forall|i: int| 0 <= i < s.len() implies #[trigger] sphere_hit_spec(
                            s[i],
                            o,
                            d,
                            t_min,
                            t_max,
                        ) == Option::<HitV>::None by {
                            if i < s.len() - 1 {
                                assert(sphere_hit_spec(pre_seq[i], o, d, t_min, t_max)
                                    == sphere_hit_spec(s[i], o, d, t_min, t_max));
                            }
                        }
                    },
                }
            },
        }
    }
}

/// Shrinking the query interval can only drop the scene's hit, never
/// introduce one: a hit found in the narrower interval lies in the wider
/// one too, and the wider query finds a hit at most as far along the ray.
pub proof fn lemma_scene_hit_monotonic(
    s: Seq<Sphere>,
    o: V3,
    d: V3,
    t_min: int,
    t_max: int,
    t_min2: int,
    t_max2: int,
)
    requires
        scene_wf(s),
        bounded(o, GEOM_BOUND as int),
        bounded(d, GEOM_BOUND as int),
        dir_ok(d),
        -T_BOUND <= t_min <= t_min2,
        t_max2 <= t_max <= T_BOUND,
        t_min2 <= t_max2,
    ensures
        (match scene_hit_spec(s, o, d, t_min2, t_max2) {
            Option::Some(h2) => {
                &&& in_interval(h2.t, t_min, t_max)
                &&& (match scene_hit_spec(s, o, d, t_min, t_max) {
                    Option::Some(h1) => h1.t <= h2.t,
                    Option::None => false,
                })
            },
            Option::None => true,
        }),
{
    match scene_hit_spec(s, o, d, t_min2, t_max2) {
        Option::Some(h2) => {
            lemma_scene_hit_props(s, o, d, t_min2, t_max2);
            let i2 = choose|i: int|
                0 <= i < s.len() && #[trigger] sphere_hit_spec(s[i], o, d, t_min2, t_max2)
                    == Option::Some(h2);
            lemma_sphere_hit_monotonic(s[i2], o, d, t_min, t_max, t_min2, t_max2);
            lemma_scene_hit_props(s, o, d, t_min, t_max);
        },
        Option::None => {},
    }
}

} // verus!
