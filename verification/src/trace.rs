//! The radiance estimator and the sampling driver.
//!
//! `sample_ray` bounces a ray through a geometry, recording the materials it
//! meets; on a miss it unwinds that history over the sky color, most recent
//! material first, and on an exhausted bounce budget the path is absorbed to
//! black. `render_row` and `render` average jittered samples per pixel and
//! map them to bytes. Rows are independent: each draws from its own
//! generator, seeded from the row index, so callers may compute rows in any
//! order (or in parallel) and concatenate them by index.

use vstd::prelude::*;

verus! {

use crate::fp::SCALE;
use crate::fp::DIST_MAX;
use crate::fp::DIR_MAX;
use crate::fp::div_trunc;
use crate::fp::fmul;
use crate::fp::fp_mul;
use crate::fp::lemma_fmul_bound;
use crate::fp::lemma_fmul_scale_le;
use crate::vec3::Vec3;
use crate::vec3::V3;
use crate::vec3::zero_v3;
use crate::vec3::v_normalize;
use crate::vec3::v_add;
use crate::vec3::v_sub;
use crate::vec3::v_scale;
use crate::vec3::in_bounds;
use crate::vec3::is_zero;
use crate::random::Random;
use crate::random::xorshift;
use crate::random::uniform_scale;
use crate::ray::Ray;
use crate::ray::RayG;
use crate::ray::ray_wf;
use crate::object::Object;
use crate::material::Material;
use crate::material::mat_wf;
use crate::material::channels01;
use crate::material::attenuate_all;
use crate::material::scatter_model;
use vstd::arithmetic::div_mod::lemma_div_is_ordered;
use vstd::arithmetic::div_mod::lemma_div_pos_is_pos;
use vstd::arithmetic::div_mod::lemma_div_multiples_vanish;

/// Red and green channels of the sky gradient's far color; the blue channel
/// is one. They stand for 0.5 and 0.7.
pub const SKY_R: i64 = 32768;

pub const SKY_G: i64 = 45875;

pub const SKY_B: i64 = 65536;

/// The sky gradient: white blended toward sky blue by the height of the
/// normalized direction.
pub open spec fn sky_spec(d: V3) -> V3 {
    let n = v_normalize(d);
    let t = div_trunc(n.y + SCALE as int, 2);
    V3 {
        x: (SCALE as int - t) + fmul(t, SKY_R as int),
        y: (SCALE as int - t) + fmul(t, SKY_G as int),
        z: (SCALE as int - t) + fmul(t, SKY_B as int),
    }
}

/// The sky color seen along `direction`.
pub fn sky(direction: Vec3) -> (r: Vec3)
    requires
        in_bounds(direction@, DIR_MAX as int),
        !is_zero(direction@),
    ensures
        r@ == sky_spec(direction@),
        channels01(r@),
{
    let n = direction.normalize();
    let t = (n.y + SCALE) / 2;
    proof {
        lemma_fmul_scale_le(t as int, SKY_R as int);
        lemma_fmul_scale_le(t as int, SKY_G as int);
        lemma_fmul_scale_le(t as int, SKY_B as int);
    }
    Vec3::new(
        (SCALE - t) + fp_mul(t, SKY_R),
        (SCALE - t) + fp_mul(t, SKY_G),
        (SCALE - t) + fp_mul(t, SKY_B),
    )
}

/// The radiance estimate as a function of the scene, the rays and the
/// generator state: the color `sample_ray` returns from this point of the
/// bounce loop on, and the state it leaves behind. With the budget exhausted
/// the path is absorbed to black; a miss unwinds the history over the sky
/// seen along the primary direction; a hit scatters and recurses.
pub open spec fn radiance_from<T: Object>(
    object: &T,
    primary: RayG,
    current: RayG,
    history: Seq<Material>,
    state: u64,
    fuel: nat,
) -> (V3, u64)
    decreases fuel,
{
    if fuel == 0 {
        (zero_v3(), state)
    } else {
        match object.hit_model(current, 1, DIST_MAX as int) {
            Option::None => (attenuate_all(history, sky_spec(primary.direction)), state),
            Option::Some(h) => {
                let sc = scatter_model(h.material, primary.direction, h, state);
                radiance_from(
                    object,
                    primary,
                    sc.0,
                    history.push(h.material),
                    sc.1,
                    (fuel - 1) as nat,
                )
            },
        }
    }
}

/// Estimate the radiance arriving along `ray`.
///
/// Bounces through `object` up to `max_bounces` times. Each scatter is
/// handed the primary ray's direction as the incoming direction, not the
/// latest segment's — a deliberate simplification of this renderer's light
/// transport. A miss unwinds the recorded materials over the sky color,
/// newest first; an exhausted budget returns black.
pub fn sample_ray<T: Object>(ray: Ray, object: &T, rng: &mut Random, max_bounces: usize) -> (r:
    Vec3)
    requires
        object.obj_wf(),
        ray_wf(ray@),
    ensures
        channels01(r@),
        (r@, final(rng)@) == radiance_from(
            object,
            ray@,
            ray@,
            Seq::<Material>::empty(),
            old(rng)@,
            max_bounces as nat,
        ),
        max_bounces == 0 ==> r@ == zero_v3(),
        max_bounces > 0 && object.hit_model(ray@, 1, DIST_MAX as int) is None ==> r@ == sky_spec(
            ray@.direction,
        ),
{
    let mut history: Vec<Material> = Vec::new();
    let mut current = ray;
    let mut bounce: usize = 0;
    while bounce < max_bounces
        invariant
            object.obj_wf(),
            ray_wf(ray@),
            ray_wf(current@),
            bounce <= max_bounces,
            forall|i: int| 0 <= i < history@.len() ==> mat_wf(#[trigger] history@[i]),
            bounce == 0 ==> current@ == ray@ && history@.len() == 0,
            bounce > 0 ==> !(object.hit_model(ray@, 1, DIST_MAX as int) is None),
            radiance_from(
                object,
                ray@,
                ray@,
                Seq::<Material>::empty(),
                old(rng)@,
                max_bounces as nat,
            ) == radiance_from(
                object,
                ray@,
                current@,
                history@,
                rng@,
                (max_bounces - bounce) as nat,
            ),
        decreases max_bounces - bounce,
    {
        let maybe_hit = current.hits(object, 1, DIST_MAX);
        match maybe_hit {
            Option::Some(hit) => {
                let ghost pre_current = current@;
                let ghost pre_history = history@;
                let ghost pre_state = rng@;
                history.push(hit.material);
                current = hit.material.scatter(ray.direction, hit, rng);
                proof {
                    assert(radiance_from(
                        object,
                        ray@,
                        pre_current,
                        pre_history,
                        pre_state,
                        (max_bounces - bounce) as nat,
                    ) == radiance_from(
                        object,
                        ray@,
                        current@,
                        history@,
                        rng@,
                        (max_bounces - bounce - 1) as nat,
                    ));
                }
            },
            Option::None => {
                let mut color = sky(ray.direction);
                let ghost entry_history = history@;
                let ghost was_empty = history@.len() == 0;
                while history.len() > 0
                    invariant
                        channels01(color@),
                        forall|i: int| 0 <= i < history@.len() ==> mat_wf(#[trigger] history@[i]),
                        was_empty ==> history@.len() == 0 && color@ == sky_spec(ray@.direction),
                        attenuate_all(history@, color@) == attenuate_all(
                            entry_history,
                            sky_spec(ray@.direction),
                        ),
                    decreases history@.len(),
                {
                    let m = history.pop().unwrap();
                    color = m.attenuate(color);
                }
                return color;
            },
        }
        bounce = bounce + 1;
    }
    Vec3::new(0, 0, 0)
}

/// Camera parameters: the eye, the top-left corner of the viewport, and the
/// viewport's horizontal and vertical extents.
#[derive(Clone, Copy, Debug)]
pub struct Camera {
    pub origin: Vec3,
    pub top_left: Vec3,
    pub view_x: Vec3,
    pub view_y: Vec3,
}

/// Largest magnitude allowed for a camera vector component.
pub const CAM_MAX: i64 = 131072;

pub open spec fn cam_wf(c: Camera) -> bool {
    &&& in_bounds(c.origin@, CAM_MAX as int)
    &&& in_bounds(c.top_left@, CAM_MAX as int)
    &&& in_bounds(c.view_x@, CAM_MAX as int)
    &&& in_bounds(c.view_y@, CAM_MAX as int)
}

/// A channel in `[0, 1]` scaled to a byte, saturating at 255.
pub open spec fn byte_of(c: int) -> int {
    let b = div_trunc(c * 256, SCALE as int);
    if b > 255 {
        255
    } else {
        b
    }
}

/// One jittered sample of pixel `(x, y)`: two draws jitter the pixel
/// coordinates, the camera maps them to a ray, and the estimator follows it.
/// A direction that degenerates to zero contributes no radiance. Yields the
/// sample's color and the generator state after it.
pub open spec fn pixel_sample_from<T: Object>(
    object: &T,
    camera: Camera,
    x: int,
    y: int,
    width: int,
    height: int,
    max_bounces: nat,
    state: u64,
) -> (V3, u64) {
    let s1 = xorshift(state);
    let s2 = xorshift(s1);
    let u = div_trunc(x * SCALE + uniform_scale(s1, SCALE as int), width);
    let v = div_trunc(y * SCALE + uniform_scale(s2, SCALE as int), height);
    let dir = v_add(
        v_sub(
            v_add(camera.top_left@, v_scale(u, camera.view_x@)),
            v_scale(v, camera.view_y@),
        ),
        camera.origin@,
    );
    if is_zero(dir) {
        (zero_v3(), s2)
    } else {
        let ray = RayG { origin: camera.origin@, direction: dir };
        radiance_from(object, ray, ray, Seq::<Material>::empty(), s2, max_bounces)
    }
}

/// The sum of the first `n` sample estimates of pixel `(x, y)`, and the
/// generator state after them.
pub open spec fn pixel_sum_from<T: Object>(
    object: &T,
    camera: Camera,
    x: int,
    y: int,
    width: int,
    height: int,
    max_bounces: nat,
    state: u64,
    n: nat,
) -> (V3, u64)
    decreases n,
{
    if n == 0 {
        (zero_v3(), state)
    } else {
        let prev = pixel_sum_from(
            object,
            camera,
            x,
            y,
            width,
            height,
            max_bounces,
            state,
            (n - 1) as nat,
        );
        let s = pixel_sample_from(object, camera, x, y, width, height, max_bounces, prev.1);
        (v_add(prev.0, s.0), s.1)
    }
}

/// The bytes of the first `x` pixels of row `y`, averaged over `samples`
/// estimates each, and the generator state after them.
pub open spec fn row_from<T: Object>(
    object: &T,
    camera: Camera,
    y: int,
    width: int,
    height: int,
    samples: nat,
    max_bounces: nat,
    x: nat,
    state: u64,
) -> (Seq<u8>, u64)
    decreases x,
{
    if x == 0 {
        (Seq::<u8>::empty(), state)
    } else {
        let prev = row_from(
            object,
            camera,
            y,
            width,
            height,
            samples,
            max_bounces,
            (x - 1) as nat,
            state,
        );
        let ps = pixel_sum_from(
            object,
            camera,
            x - 1,
            y,
            width,
            height,
            max_bounces,
            prev.1,
            samples,
        );
        let bytes = seq![
            byte_of(div_trunc(ps.0.x, samples as int)) as u8,
            byte_of(div_trunc(ps.0.y, samples as int)) as u8,
            byte_of(div_trunc(ps.0.z, samples as int)) as u8,
        ];
        (prev.0 + bytes, ps.1)
    }
}

/// The first `rows` image rows, concatenated in row order. Each row draws
/// from its own generator, seeded from its index.
pub open spec fn image_from<T: Object>(
    object: &T,
    camera: Camera,
    width: int,
    height: int,
    samples: nat,
    max_bounces: nat,
    rows: nat,
) -> Seq<u8>
    decreases rows,
{
    if rows == 0 {
        Seq::<u8>::empty()
    } else {
        image_from(object, camera, width, height, samples, max_bounces, (rows - 1) as nat)
            + row_from(
            object,
            camera,
            rows - 1,
            width,
            height,
            samples,
            max_bounces,
            width as nat,
            ((rows - 1) + width) as u64,
        ).0
    }
}

/// Map an averaged channel to its output byte.
fn to_byte(channel: i64) -> (b: u8)
    requires
        0 <= channel <= SCALE,
    ensures
        b as int == byte_of(channel as int),
        channel == 0 ==> b == 0,
{
    let v = (channel * 256) / SCALE;
    if v > 255 {
        255
    } else {
        v as u8
    }
}

/// Render one image row: `width` pixels of `samples` jittered rays each,
/// averaged and mapped to bytes. The row owns a generator seeded from its
/// index, so rows are reproducible and independent.
pub fn render_row<T: Object>(
    y: usize,
    width: usize,
    height: usize,
    samples: usize,
    max_bounces: usize,
    camera: &Camera,
    object: &T,
) -> (row: Vec<u8>)
    requires
        object.obj_wf(),
        cam_wf(*camera),
        1 <= width <= 65536,
        1 <= height <= 65536,
        y < height,
        1 <= samples <= 65536,
    ensures
        row@.len() == 3 * width,
        max_bounces == 0 ==> forall|k: int| 0 <= k < row@.len() ==> row@[k] == 0,
        row@ == row_from(
            object,
            *camera,
            y as int,
            width as int,
            height as int,
            samples as nat,
            max_bounces as nat,
            width as nat,
            (y + width) as u64,
        ).0,
{
    let mut row: Vec<u8> = Vec::new();
    let mut rng = Random::new((y + width) as u64);
    let mut x: usize = 0;
    while x < width
        invariant
            object.obj_wf(),
            cam_wf(*camera),
            1 <= width <= 65536,
            1 <= height <= 65536,
            y < height,
            1 <= samples <= 65536,
            x <= width,
            row@.len() == 3 * x,
            max_bounces == 0 ==> forall|k: int| 0 <= k < row@.len() ==> row@[k] == 0,
            (row@, rng@) == row_from(
                object,
                *camera,
                y as int,
                width as int,
                height as int,
                samples as nat,
                max_bounces as nat,
                x as nat,
                (y + width) as u64,
            ),
        decreases width - x,
    {
        let mut sum = Vec3::new(0, 0, 0);
        let mut s: usize = 0;
        let ghost pixel_state = rng@;
        let ghost row_before = row@;
        while s < samples
            invariant
                object.obj_wf(),
                cam_wf(*camera),
                1 <= width <= 65536,
                1 <= height <= 65536,
                y < height,
                1 <= samples <= 65536,
                x < width,
                s <= samples,
                0 <= sum@.x <= (s as int) * (SCALE as int),
                0 <= sum@.y <= (s as int) * (SCALE as int),
                0 <= sum@.z <= (s as int) * (SCALE as int),
                max_bounces == 0 ==> sum@ == zero_v3(),
                (sum@, rng@) == pixel_sum_from(
                    object,
                    *camera,
                    x as int,
                    y as int,
                    width as int,
                    height as int,
                    max_bounces as nat,
                    pixel_state,
                    s as nat,
                ),
            decreases samples - s,
        {
            let ghost sample_state = rng@;
            let ju = rng.gen_fixed(0, SCALE);
            let jv = rng.gen_fixed(0, SCALE);
            let un = (x as i64) * SCALE + ju;
            let vn = (y as i64) * SCALE + jv;
            proof {
                lemma_div_pos_is_pos(un as int, width as int);
                lemma_div_is_ordered(un as int, (width as int) * 65536, width as int);
                lemma_div_multiples_vanish(65536, width as int);
                lemma_div_pos_is_pos(vn as int, height as int);
                lemma_div_is_ordered(vn as int, (height as int) * 65536, height as int);
                lemma_div_multiples_vanish(65536, height as int);
            }
            let u = un / (width as i64);
            let v = vn / (height as i64);
            proof {
                lemma_fmul_bound(u as int, camera.view_x@.x, 65536, CAM_MAX as int);
                lemma_fmul_bound(u as int, camera.view_x@.y, 65536, CAM_MAX as int);
                lemma_fmul_bound(u as int, camera.view_x@.z, 65536, CAM_MAX as int);
                lemma_fmul_bound(v as int, camera.view_y@.x, 65536, CAM_MAX as int);
                lemma_fmul_bound(v as int, camera.view_y@.y, 65536, CAM_MAX as int);
                lemma_fmul_bound(v as int, camera.view_y@.z, 65536, CAM_MAX as int);
            }
            let du = camera.view_x.scale(u);
            let dv = camera.view_y.scale(v);
            let d1 = camera.top_left.add(&du);
            let d2 = d1.sub(&dv);
            let dir = d2.add(&camera.origin);
            let color = if dir.is_zero_vec() {
                Vec3::new(0, 0, 0)
            } else {
                sample_ray(Ray::new(camera.origin, dir), object, &mut rng, max_bounces)
            };
            proof {
                assert((color@, rng@) == pixel_sample_from(
                    object,
                    *camera,
                    x as int,
                    y as int,
                    width as int,
                    height as int,
                    max_bounces as nat,
                    sample_state,
                ));
            }
            sum = sum.add(&color);
            s = s + 1;
            proof {
                assert((sum@, rng@) == pixel_sum_from(
                    object,
                    *camera,
                    x as int,
                    y as int,
                    width as int,
                    height as int,
                    max_bounces as nat,
                    pixel_state,
                    s as nat,
                ));
            }
        }
        proof {
            lemma_div_pos_is_pos(sum@.x, samples as int);
            lemma_div_is_ordered(sum@.x, (samples as int) * 65536, samples as int);
            lemma_div_pos_is_pos(sum@.y, samples as int);
            lemma_div_is_ordered(sum@.y, (samples as int) * 65536, samples as int);
            lemma_div_pos_is_pos(sum@.z, samples as int);
            lemma_div_is_ordered(sum@.z, (samples as int) * 65536, samples as int);
            lemma_div_multiples_vanish(65536, samples as int);
        }
        let px = sum.x / (samples as i64);
        let py = sum.y / (samples as i64);
        let pz = sum.z / (samples as i64);
        row.push(to_byte(px));
        row.push(to_byte(py));
        row.push(to_byte(pz));
        x = x + 1;
        proof {
            assert(row@ =~= row_before + seq![
                byte_of(px as int) as u8,
                byte_of(py as int) as u8,
                byte_of(pz as int) as u8,
            ]);
            assert((row@, rng@) == row_from(
                object,
                *camera,
                y as int,
                width as int,
                height as int,
                samples as nat,
                max_bounces as nat,
                x as nat,
                (y + width) as u64,
            ));
        }
    }
    row
}

/// Render the whole image: rows in index order, concatenated row-major into
/// one byte buffer of `width * height` pixels, three channels each.
pub fn render<T: Object>(
    width: usize,
    height: usize,
    samples: usize,
    max_bounces: usize,
    camera: &Camera,
    object: &T,
) -> (img: Vec<u8>)
    requires
        object.obj_wf(),
        cam_wf(*camera),
        1 <= width <= 4096,
        1 <= height <= 4096,
        1 <= samples <= 65536,
    ensures
        img@.len() == 3 * (width as int) * (height as int),
        max_bounces == 0 ==> forall|k: int| 0 <= k < img@.len() ==> img@[k] == 0,
        img@ == image_from(
            object,
            *camera,
            width as int,
            height as int,
            samples as nat,
            max_bounces as nat,
            height as nat,
        ),
{
    let mut img: Vec<u8> = Vec::new();
    let mut y: usize = 0;
    while y < height
        invariant
            object.obj_wf(),
            cam_wf(*camera),
            1 <= width <= 4096,
            1 <= height <= 4096,
            1 <= samples <= 65536,
            y <= height,
            img@.len() == 3 * (width as int) * (y as int),
            max_bounces == 0 ==> forall|k: int| 0 <= k < img@.len() ==> img@[k] == 0,
            img@ == image_from(
                object,
                *camera,
                width as int,
                height as int,
                samples as nat,
                max_bounces as nat,
                y as nat,
            ),
        decreases height - y,
    {
        let ghost before = img@;
        let mut line = render_row(y, width, height, samples, max_bounces, camera, object);
        let ghost linev = line@;
        img.append(&mut line);
        proof {
            assert(3 * (width as int) * (y as int) + 3 * (width as int) == 3 * (width as int) * ((
            y as int) + 1)) by (nonlinear_arith);
            if max_bounces == 0 {
                assert forall|k: int| 0 <= k < img@.len() implies img@[k] == 0 by {
                    if k < before.len() {
                        assert(img@[k] == before[k]);
                    } else {
                        assert(img@[k] == linev[k - before.len()]);
                    }
                }
            }
        }
        y = y + 1;
    }
    img
}

} // verus!
