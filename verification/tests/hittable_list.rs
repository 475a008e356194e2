use raytrace::hittable::{HitRecord, Hittable};
use raytrace::hittable_list::HittableList;
use raytrace::integrator::{exhausted, step, Leg, Step};
use raytrace::ppm::pixel_line;
use raytrace::ray::Ray;
use raytrace::roots::nearest_root;

#[derive(Debug, Clone, Copy, PartialEq)]
struct Vec3 {
    x: f64,
    y: f64,
    z: f64,
}

impl Vec3 {
    fn new(x: f64, y: f64, z: f64) -> Vec3 {
        Vec3 { x, y, z }
    }

    fn zeros() -> Vec3 {
        Vec3::new(0.0, 0.0, 0.0)
    }

    fn dot(&self, other: Vec3) -> f64 {
        self.x * other.x + self.y * other.y + self.z * other.z
    }

    fn minus(&self, other: Vec3) -> Vec3 {
        Vec3::new(self.x - other.x, self.y - other.y, self.z - other.z)
    }

    fn scaled(&self, k: f64) -> Vec3 {
        Vec3::new(self.x * k, self.y * k, self.z * k)
    }
}

/// A sphere of floating-point numbers, as a program that uses the list would
/// define it.
#[derive(Debug)]
struct Sphere {
    center: Vec3,
    radius: f64,
    material: u8,
}

impl Sphere {
    fn new(center: Vec3, radius: f64) -> Sphere {
        Sphere { center, radius, material: 0 }
    }

    fn made_of(center: Vec3, radius: f64, material: u8) -> Sphere {
        Sphere { center, radius, material }
    }
}

impl Hittable for Sphere {
    type Vector = Vec3;
    type Scalar = f64;
    type Material = u8;

    fn hit(&self, ray: Ray<Vec3>, t_min: f64, t_max: f64) -> Option<HitRecord<Vec3, f64, u8>> {
        let oc = ray.orig.minus(self.center);
        let a = ray.dir.dot(ray.dir);
        let half_b = oc.dot(ray.dir);
        let c = oc.dot(oc) - self.radius * self.radius;
        let discriminant = half_b * half_b - a * c;
        if discriminant < 0.0 {
            return None;
        }
        let sqrtd = discriminant.sqrt();
        let root = nearest_root((-half_b - sqrtd) / a, (-half_b + sqrtd) / a, t_min, t_max)?;
        let point = Vec3::new(
            ray.orig.x + root * ray.dir.x,
            ray.orig.y + root * ray.dir.y,
            ray.orig.z + root * ray.dir.z,
        );
        let outward_normal = point.minus(self.center).scaled(1.0 / self.radius);
        let front_face = ray.dir.dot(outward_normal) < 0.0;
        Some(HitRecord::from_ray(
            point,
            outward_normal,
            outward_normal.scaled(-1.0),
            root,
            front_face,
            self.material,
        ))
    }
}

#[test]
fn hittable_list_test_hit() {
    let mut hittable_list = HittableList::new();
    hittable_list.add(Sphere::new(Vec3::new(3.0, 0.0, 0.0), 1.0));
    let ray = Ray::new(Vec3::zeros(), Vec3::new(1.0, 0.0, 0.0));

    let expected = Some(HitRecord {
        point: Vec3::new(2.0, 0.0, 0.0),
        normal: Vec3::new(-1.0, 0.0, 0.0),
        t: 2.0,
        front_face: true,
        material: 0,
    });

    assert_eq!(hittable_list.hit(ray, 0.0, f64::MAX), expected);
}

#[test]
fn hittable_list_test_hit_missing() {
    let mut hittable_list = HittableList::new();
    hittable_list.add(Sphere::new(Vec3::new(3.0, 0.0, 0.0), 1.0));
    let ray = Ray::new(Vec3::zeros(), Vec3::new(0.0, 1.0, 0.0));

    assert_eq!(hittable_list.hit(ray, 0.0, f64::MAX), None);
}

#[test]
fn empty_list_is_never_hit() {
    let hittable_list: HittableList<Sphere> = HittableList::new();
    let ray = Ray::new(Vec3::zeros(), Vec3::new(1.0, 0.0, 0.0));
    assert_eq!(hittable_list.hit(ray, 0.0, f64::INFINITY), None);
    let down = Ray::new(Vec3::zeros(), Vec3::new(0.0, -1.0, 0.0));
    assert_eq!(hittable_list.hit(down, 0.001, f64::INFINITY), None);
}

#[test]
fn cleared_list_is_never_hit() {
    let mut hittable_list = HittableList::new();
    hittable_list.add(Sphere::new(Vec3::new(3.0, 0.0, 0.0), 1.0));
    let ray = Ray::new(Vec3::zeros(), Vec3::new(1.0, 0.0, 0.0));
    assert!(hittable_list.hit(ray, 0.0, f64::MAX).is_some());
    hittable_list.clear();
    assert_eq!(hittable_list.hit(ray, 0.0, f64::MAX), None);
}

#[test]
fn nearest_object_wins_when_it_was_added_first() {
    let mut hittable_list = HittableList::new();
    hittable_list.add(Sphere::made_of(Vec3::new(3.0, 0.0, 0.0), 1.0, 1));
    hittable_list.add(Sphere::made_of(Vec3::new(10.0, 0.0, 0.0), 2.0, 2));
    let ray = Ray::new(Vec3::zeros(), Vec3::new(1.0, 0.0, 0.0));
    let hit = hittable_list.hit(ray, 0.0, f64::MAX).unwrap();
    assert_eq!(hit.t, 2.0);
    assert_eq!(hit.material, 1);
    assert_eq!(hit.point, Vec3::new(2.0, 0.0, 0.0));
}

#[test]
fn nearest_object_wins_when_it_was_added_last() {
    let mut hittable_list = HittableList::new();
    hittable_list.add(Sphere::made_of(Vec3::new(10.0, 0.0, 0.0), 2.0, 2));
    hittable_list.add(Sphere::made_of(Vec3::new(3.0, 0.0, 0.0), 1.0, 1));
    let ray = Ray::new(Vec3::zeros(), Vec3::new(1.0, 0.0, 0.0));
    let hit = hittable_list.hit(ray, 0.0, f64::MAX).unwrap();
    assert_eq!(hit.t, 2.0);
    assert_eq!(hit.material, 1);
    assert_eq!(hit.point, Vec3::new(2.0, 0.0, 0.0));
}

#[test]
fn reported_hit_lies_in_the_range() {
    let mut hittable_list = HittableList::new();
    hittable_list.add(Sphere::made_of(Vec3::new(3.0, 0.0, 0.0), 1.0, 1));
    hittable_list.add(Sphere::made_of(Vec3::new(10.0, 0.0, 0.0), 2.0, 2));
    let ray = Ray::new(Vec3::zeros(), Vec3::new(1.0, 0.0, 0.0));
    // The near sphere is cut out of the range, the far one is not.
    let hit = hittable_list.hit(ray, 5.0, 100.0).unwrap();
    assert_eq!(hit.t, 8.0);
    assert_eq!(hit.material, 2);
    // Nothing lies between the two spheres.
    assert_eq!(hittable_list.hit(ray, 4.5, 7.5), None);
    // The far side of the near sphere is all that the range admits.
    let exit = hittable_list.hit(ray, 3.0, 7.0).unwrap();
    assert_eq!(exit.t, 4.0);
    assert!(!exit.front_face);
    assert_eq!(exit.normal, Vec3::new(-1.0, 0.0, 0.0));
}

#[test]
fn list_is_missed_exactly_when_every_object_is() {
    let near = Sphere::made_of(Vec3::new(3.0, 0.0, 0.0), 1.0, 1);
    let far = Sphere::made_of(Vec3::new(0.0, 9.0, 0.0), 1.0, 2);
    let along_x = Ray::new(Vec3::zeros(), Vec3::new(1.0, 0.0, 0.0));
    let along_y = Ray::new(Vec3::zeros(), Vec3::new(0.0, 1.0, 0.0));
    let along_z = Ray::new(Vec3::zeros(), Vec3::new(0.0, 0.0, 1.0));
    assert!(near.hit(along_x, 0.0, f64::MAX).is_some());
    assert!(far.hit(along_x, 0.0, f64::MAX).is_none());
    assert!(near.hit(along_z, 0.0, f64::MAX).is_none());
    assert!(far.hit(along_z, 0.0, f64::MAX).is_none());
    let mut hittable_list = HittableList::new();
    hittable_list.add(near);
    hittable_list.add(far);
    assert!(hittable_list.hit(along_x, 0.0, f64::MAX).is_some());
    assert_eq!(hittable_list.hit(along_y, 0.0, f64::MAX).unwrap().material, 2);
    assert_eq!(hittable_list.hit(along_z, 0.0, f64::MAX), None);
}

#[test]
fn list_of_lists_reports_the_nearest_hit_of_all() {
    let mut front = HittableList::new();
    front.add(Sphere::made_of(Vec3::new(20.0, 0.0, 0.0), 1.0, 1));
    let mut back = HittableList::new();
    back.add(Sphere::made_of(Vec3::new(30.0, 0.0, 0.0), 1.0, 2));
    back.add(Sphere::made_of(Vec3::new(6.0, 0.0, 0.0), 1.0, 3));
    let mut world = HittableList::new();
    world.add(front);
    world.add(back);
    let ray = Ray::new(Vec3::zeros(), Vec3::new(1.0, 0.0, 0.0));
    let hit = world.hit(ray, 0.0, f64::MAX).unwrap();
    assert_eq!(hit.t, 5.0);
    assert_eq!(hit.material, 3);
}

/// What a path of at most `depth` bounces through `world` ends in, where
/// every surface scatters: the number of surfaces that were hit, and the last
/// step.
fn trace(world: &HittableList<Sphere>, ray: Ray<Vec3>, depth: i32) -> (u32, Step) {
    let mut ray = ray;
    let mut depth = depth;
    let mut bounces = 0;
    loop {
        if exhausted(depth) {
            return (bounces, Step::Black);
        }
        let leg = match world.hit(ray, 0.001, f64::INFINITY) {
            Some(rec) => {
                bounces += 1;
                ray = Ray::new(rec.point, rec.normal);
                Leg::Scattered
            }
            None => Leg::Escaped,
        };
        match step(depth, leg) {
            Step::Follow { depth: rest } => depth = rest,
            last => return (bounces, last),
        }
    }
}

#[test]
fn ray_into_an_empty_scene_ends_in_the_background() {
    let world: HittableList<Sphere> = HittableList::new();
    let down = Ray::new(Vec3::zeros(), Vec3::new(0.0, -1.0, 0.0));
    let up = Ray::new(Vec3::zeros(), Vec3::new(0.0, 1.0, 0.0));
    assert_eq!(trace(&world, down, 50), (0, Step::Background));
    assert_eq!(trace(&world, up, 50), (0, Step::Background));
    assert_eq!(trace(&world, up, 1), (0, Step::Background));
}

#[test]
fn ray_with_no_bounce_left_is_black_in_every_scene() {
    let empty: HittableList<Sphere> = HittableList::new();
    let mut world = HittableList::new();
    world.add(Sphere::new(Vec3::new(0.0, 0.0, -1.0), 0.5));
    let ahead = Ray::new(Vec3::zeros(), Vec3::new(0.0, 0.0, -1.0));
    let up = Ray::new(Vec3::zeros(), Vec3::new(0.0, 1.0, 0.0));
    for ray in [ahead, up] {
        assert_eq!(trace(&empty, ray, 0), (0, Step::Black));
        assert_eq!(trace(&world, ray, 0), (0, Step::Black));
        assert_eq!(trace(&world, ray, -3), (0, Step::Black));
    }
}

#[test]
fn pixels_of_the_small_sphere_differ_from_pixels_of_the_sky() {
    let mut world = HittableList::new();
    world.add(Sphere::made_of(Vec3::new(0.0, 0.0, -1.0), 0.5, 1));
    world.add(Sphere::made_of(Vec3::new(0.0, -100.5, -1.0), 100.0, 2));
    // The eye is at the origin and looks along -z at a viewport of height 2
    // and width 32/9, one unit away.
    let through = |u: f64, v: f64| {
        let x = -16.0 / 9.0 + u * 32.0 / 9.0;
        let y = -1.0 + v * 2.0;
        Ray::new(Vec3::zeros(), Vec3::new(x, y, -1.0))
    };
    // The middle of the image shows the small sphere.
    let middle = world.hit(through(0.5, 0.5), 0.001, f64::INFINITY).unwrap();
    assert_eq!(middle.material, 1);
    assert_eq!(middle.t, 0.5);
    assert!(middle.front_face);
    // The lower edge shows the ground.
    let low = world.hit(through(0.5, 0.0), 0.001, f64::INFINITY).unwrap();
    assert_eq!(low.material, 2);
    // The upper corners show the sky.
    assert_eq!(world.hit(through(0.0, 1.0), 0.001, f64::INFINITY), None);
    assert_eq!(world.hit(through(1.0, 1.0), 0.001, f64::INFINITY), None);
    // With one bounce a ray that hits a sphere brings no light, and a ray
    // that hits nothing brings the light of the sky.
    assert_eq!(trace(&world, through(0.5, 0.5), 1), (1, Step::Black));
    assert_eq!(trace(&world, through(0.5, 0.0), 1), (1, Step::Black));
    assert_eq!(trace(&world, through(0.0, 1.0), 1), (0, Step::Background));
    assert_eq!(pixel_line(0, 0, 0), b"0 0 0\n".to_vec());
    assert_ne!(pixel_line(0, 0, 0), pixel_line(182, 213, 255));
}

#[test]
fn hit_of_the_world_is_no_farther_than_the_hit_of_any_object() {
    let centers = [
        Vec3::new(9.0, 0.0, 0.0),
        Vec3::new(3.0, 0.5, 0.0),
        Vec3::new(6.0, -0.5, 0.0),
        Vec3::new(4.0, 5.0, 0.0),
        Vec3::new(-3.0, 0.0, 0.0),
    ];
    let ray = Ray::new(Vec3::zeros(), Vec3::new(1.0, 0.0, 0.0));
    let mut world = HittableList::new();
    let mut nearest: Option<f64> = None;
    for (i, center) in centers.iter().enumerate() {
        let sphere = Sphere::made_of(*center, 1.0, i as u8);
        if let Some(rec) = sphere.hit(ray, 0.001, f64::INFINITY) {
            nearest = Some(match nearest {
                Some(t) if t <= rec.t => t,
                _ => rec.t,
            });
        }
        world.add(sphere);
    }
    let hit = world.hit(ray, 0.001, f64::INFINITY).unwrap();
    assert_eq!(Some(hit.t), nearest);
    assert_eq!(hit.material, 1);
    assert!(hit.normal.dot(ray.dir) <= 0.0);
}

#[test]
fn test_from_ray() {
    let ray = Ray::new(Vec3::zeros(), Vec3::new(1.0, 0.0, 0.0));
    let point = Vec3::new(2.0, 0.0, 0.0);
    let outward_normal = Vec3::new(-1.0, 0.0, 0.0);
    let t = 2.0;

    let expected = HitRecord { point, normal: outward_normal, t, front_face: true, material: 0u8 };
    let front_face = ray.dir.dot(outward_normal) < 0.0;
    assert_eq!(
        HitRecord::from_ray(point, outward_normal, outward_normal.scaled(-1.0), t, front_face, 0u8),
        expected
    );
}

#[test]
fn test_from_ray_back_face() {
    let ray = Ray::new(Vec3::zeros(), Vec3::new(1.0, 0.0, 0.0));
    let point = Vec3::new(2.0, 0.0, 0.0);
    let outward_normal = Vec3::new(1.0, 0.0, 0.0);
    let t = 2.0;

    let expected = HitRecord {
        point,
        normal: outward_normal.scaled(-1.0),
        t,
        front_face: false,
        material: 0u8,
    };
    let front_face = ray.dir.dot(outward_normal) < 0.0;
    assert_eq!(
        HitRecord::from_ray(point, outward_normal, outward_normal.scaled(-1.0), t, front_face, 0u8),
        expected
    );
}

#[test]
fn sphere_test_hit() {
    let sphere = Sphere::new(Vec3::new(3.0, 0.0, 0.0), 1.0);
    let ray = Ray::new(Vec3::zeros(), Vec3::new(1.0, 0.0, 0.0));
    let expected = Some(HitRecord {
        point: Vec3::new(2.0, 0.0, 0.0),
        normal: Vec3::new(-1.0, 0.0, 0.0),
        t: 2.0,
        front_face: true,
        material: 0,
    });

    assert_eq!(sphere.hit(ray, 0.0, f64::MAX), expected);
}

#[test]
fn test_hit_edge() {
    let sphere = Sphere::new(Vec3::new(3.0, 0.0, 0.0), 1.0);

    let ray = Ray::new(Vec3::new(0.0, 1.0, 0.0), Vec3::new(1.0, 0.0, 0.0));
    let expected = Some(HitRecord {
        point: Vec3::new(3.0, 1.0, 0.0),
        normal: Vec3::new(0.0, -1.0, 0.0),
        t: 3.0,
        front_face: false,
        material: 0,
    });

    assert_eq!(sphere.hit(ray, 0.0, f64::MAX), expected);
}

#[test]
fn sphere_test_hit_missing() {
    let sphere = Sphere::new(Vec3::new(3.0, 0.0, 0.0), 1.0);
    let ray = Ray::new(Vec3::zeros(), Vec3::new(0.0, 0.0, 1.0));

    assert_eq!(sphere.hit(ray, 0.0, f64::MAX), None);
}

#[test]
fn test_hit_sphere() {
    let center = Vec3::new(1.0, 0.0, 0.0);
    let radius = 1.0;
    let sphere = Sphere::new(center, radius);
    let ray = Ray::new(Vec3::new(0.0, 0.0, 0.0), Vec3::new(1.0, 0.0, 0.0));
    assert!(sphere.hit(ray, 0.0, f64::INFINITY).is_some());
    let ray = Ray::new(Vec3::new(1.0, 0.0, 0.0), Vec3::new(1.0, 0.0, 0.0));
    assert!(sphere.hit(ray, 0.0, f64::INFINITY).is_some());
}

#[test]
fn test_miss_sphere() {
    let center = Vec3::new(2.0, 0.0, 0.0);
    let radius = 1.0;
    let sphere = Sphere::new(center, radius);
    let ray = Ray::new(Vec3::new(0.0, 0.0, 0.0), Vec3::new(0.0, 1.0, 0.0));
    assert!(sphere.hit(ray, 0.0, f64::INFINITY).is_none());
}

#[test]
fn ray_from_inside_a_sphere_leaves_through_its_far_side() {
    let sphere = Sphere::new(Vec3::new(0.0, 0.0, 0.0), 2.0);
    let ray = Ray::new(Vec3::new(1.0, 0.0, 0.0), Vec3::new(1.0, 0.0, 0.0));
    let hit = sphere.hit(ray, 0.001, f64::INFINITY).unwrap();
    assert_eq!(hit.t, 1.0);
    assert_eq!(hit.point, Vec3::new(2.0, 0.0, 0.0));
    assert!(!hit.front_face);
    assert_eq!(hit.normal, Vec3::new(-1.0, 0.0, 0.0));
    assert!(hit.normal.dot(ray.dir) <= 0.0);
}

#[test]
fn ray_from_outside_a_sphere_stops_at_its_near_side() {
    let sphere = Sphere::new(Vec3::new(0.0, 0.0, -5.0), 2.0);
    let ray = Ray::new(Vec3::zeros(), Vec3::new(0.0, 0.0, -2.0));
    let hit = sphere.hit(ray, 0.001, f64::INFINITY).unwrap();
    assert_eq!(hit.t, 1.5);
    assert_eq!(hit.point, Vec3::new(0.0, 0.0, -3.0));
    assert!(hit.front_face);
    assert_eq!(hit.normal, Vec3::new(0.0, 0.0, 1.0));
    assert!(hit.normal.dot(ray.dir) <= 0.0);
}
