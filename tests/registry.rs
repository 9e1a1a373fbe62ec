use transforms::{
    Duration, Point, QuaternionError, Registry, Rigid, Timestamp, Transform, TransformError,
    Transformable,
};

#[derive(Debug, Clone, Copy)]
struct Vector3 {
    x: f64,
    y: f64,
    z: f64,
}

#[derive(Debug, Clone, Copy)]
struct Quaternion {
    w: f64,
    x: f64,
    y: f64,
    z: f64,
}

#[derive(Debug, Clone, Copy)]
struct Pose {
    translation: Vector3,
    rotation: Quaternion,
}

fn close(a: f64, b: f64) -> bool {
    (a - b).abs() <= f64::EPSILON
}

impl PartialEq for Vector3 {
    fn eq(&self, o: &Self) -> bool {
        close(self.x, o.x) && close(self.y, o.y) && close(self.z, o.z)
    }
}

impl PartialEq for Quaternion {
    fn eq(&self, o: &Self) -> bool {
        close(self.w, o.w) && close(self.x, o.x) && close(self.y, o.y) && close(self.z, o.z)
    }
}

impl PartialEq for Pose {
    fn eq(&self, o: &Self) -> bool {
        self.translation == o.translation && self.rotation == o.rotation
    }
}

impl Vector3 {
    fn scaled(self, k: f64) -> Vector3 {
        Vector3 { x: self.x * k, y: self.y * k, z: self.z * k }
    }

    fn plus(self, o: Vector3) -> Vector3 {
        Vector3 { x: self.x + o.x, y: self.y + o.y, z: self.z + o.z }
    }
}

impl Quaternion {
    fn identity() -> Quaternion {
        Quaternion { w: 1.0, x: 0.0, y: 0.0, z: 0.0 }
    }

    fn conjugate(self) -> Quaternion {
        Quaternion { w: self.w, x: -self.x, y: -self.y, z: -self.z }
    }

    fn norm(self) -> f64 {
        (self.w * self.w + self.x * self.x + self.y * self.y + self.z * self.z).sqrt()
    }

    fn scale(self, k: f64) -> Quaternion {
        Quaternion { w: self.w * k, x: self.x * k, y: self.y * k, z: self.z * k }
    }

    fn plus(self, o: Quaternion) -> Quaternion {
        Quaternion { w: self.w + o.w, x: self.x + o.x, y: self.y + o.y, z: self.z + o.z }
    }

    fn normalize(self) -> Result<Quaternion, QuaternionError> {
        let norm = self.norm();
        if norm < f64::EPSILON {
            return Err(QuaternionError::ZeroLengthNormalization);
        }
        Ok(self.scale(1.0 / norm))
    }

    fn mul(self, o: Quaternion) -> Quaternion {
        Quaternion {
            w: self.w * o.w - self.x * o.x - self.y * o.y - self.z * o.z,
            x: self.w * o.x + self.x * o.w + self.y * o.z - self.z * o.y,
            y: self.w * o.y - self.x * o.z + self.y * o.w + self.z * o.x,
            z: self.w * o.z + self.x * o.y - self.y * o.x + self.z * o.w,
        }
    }

    fn rotate_vector(self, v: Vector3) -> Vector3 {
        let q = Quaternion { w: 0.0, x: v.x, y: v.y, z: v.z };
        let r = self.mul(q).mul(self.conjugate());
        Vector3 { x: r.x, y: r.y, z: r.z }
    }

    fn slerp(self, other: Quaternion, t: f64) -> Quaternion {
        let dot = self.w * other.w + self.x * other.x + self.y * other.y + self.z * other.z;
        let dot = dot.clamp(-1.0, 1.0);
        let theta = dot.acos();
        if theta.abs() < f64::EPSILON {
            return self.scale(1.0 - t).plus(other.scale(t));
        }
        let sin_theta = theta.sin();
        let a = ((1.0 - t) * theta).sin() / sin_theta;
        let b = (t * theta).sin() / sin_theta;
        self.scale(a).plus(other.scale(b))
    }
}

impl Rigid for Pose {
    fn unit() -> Self {
        Self::identity()
    }

    fn composed(&self, other: &Self) -> Self {
        self.compose(other)
    }

    fn inverted(&self) -> Option<Self> {
        self.inverse()
    }

    fn blended(&self, other: &Self, elapsed: u128, span: u128) -> Self {
        self.interpolate(other, elapsed, span)
    }

    fn identity() -> Self {
        Pose { translation: Vector3 { x: 0.0, y: 0.0, z: 0.0 }, rotation: Quaternion::identity() }
    }

    fn compose(&self, other: &Self) -> Self {
        Pose {
            translation: self.rotation.rotate_vector(other.translation).plus(self.translation),
            rotation: self.rotation.mul(other.rotation),
        }
    }

    fn inverse(&self) -> Option<Self> {
        let q = self.rotation.normalize().ok()?;
        let inv = q.conjugate();
        Some(Pose { translation: inv.rotate_vector(self.translation).scaled(-1.0), rotation: inv })
    }

    fn interpolate(&self, other: &Self, elapsed: u128, span: u128) -> Self {
        let ratio = elapsed as f64 / span as f64;
        Pose {
            translation: self.translation.scaled(1.0 - ratio).plus(other.translation.scaled(ratio)),
            rotation: self.rotation.slerp(other.rotation, ratio),
        }
    }
}

fn tf(parent: &str, child: &str, timestamp: Timestamp, t: (f64, f64, f64), q: Quaternion) -> Transform<Pose> {
    Transform {
        pose: Pose { translation: Vector3 { x: t.0, y: t.1, z: t.2 }, rotation: q },
        timestamp,
        parent: parent.into(),
        child: child.into(),
    }
}

fn rot90z() -> Quaternion {
    let theta = std::f64::consts::PI / 2.0;
    Quaternion { w: (theta / 2.0).cos(), x: 0., y: 0., z: (theta / 2.0).sin() }
}

fn id() -> Quaternion {
    Quaternion::identity()
}

#[test]
fn basic_chain_linear() {
    let mut registry = Registry::new(Duration::from_secs(10));
    let t = Timestamp::now();
    let t_a_b = tf("a", "b", t, (1., 0., 0.), id());
    let t_b_c = tf("b", "c", t, (0., 1., 0.), id());
    registry.add_transform(t_a_b.clone()).unwrap();
    registry.add_transform(t_b_c.clone()).unwrap();
    let t_a_c = tf("a", "c", t, (1., 1., 0.), id());
    let r = registry.get_transform("a", "c", t_a_b.timestamp);
    assert!(r.is_ok(), "Registry returned Error, expected Ok");
    assert_eq!(r.unwrap(), t_a_c, "Registry returned a transform that is different");
}

#[test]
fn basic_chain_linear_reverse() {
    let mut registry = Registry::new(Duration::from_secs(10));
    let t = Timestamp::now();
    let t_a_b = tf("a", "b", t, (1., 0., 0.), id());
    let t_b_c = tf("b", "c", t, (0., 1., 0.), id());
    registry.add_transform(t_a_b.clone()).unwrap();
    registry.add_transform(t_b_c.clone()).unwrap();
    let t_c_a = tf("c", "a", t, (-1., -1., 0.), id());
    let r = registry.get_transform("c", "a", t_a_b.timestamp);
    assert!(r.is_ok(), "Registry returned Error, expected Ok");
    assert_eq!(r.unwrap(), t_c_a, "Registry returned a transform that is different");
}

#[test]
fn basic_chain_rotation() {
    let mut registry = Registry::new(Duration::from_secs(10));
    let t = Timestamp::now();
    let t_a_b = tf("a", "b", t, (1., 0., 0.), id());
    let t_b_c = tf("b", "c", t, (0., 0., 0.), rot90z());
    let t_c_d = tf("c", "d", t, (1., 0., 0.), id());
    registry.add_transform(t_a_b.clone()).unwrap();
    registry.add_transform(t_b_c.clone()).unwrap();
    registry.add_transform(t_c_d.clone()).unwrap();
    let t_a_d = tf("a", "d", t, (1., 1., 0.), rot90z());
    let r = registry.get_transform("a", "d", t_a_b.timestamp);
    assert!(r.is_ok(), "Registry returned Error, expected Ok");
    assert_eq!(r.unwrap(), t_a_d, "Registry returned a transform that is different");
}

#[test]
fn basic_exact_match() {
    let mut registry = Registry::new(Duration::from_secs(10));
    let t_a_b = tf("a", "b", Timestamp::now(), (1., 0., 0.), id());
    let t_a_c = tf("a", "c", Timestamp::now(), (0., 1., 0.), rot90z());
    registry.add_transform(t_a_b.clone()).unwrap();
    registry.add_transform(t_a_c.clone()).unwrap();

    let r = registry.get_transform("a", "b", t_a_b.timestamp);
    assert!(r.is_ok(), "Registry returned Error, expected Ok");
    assert_eq!(r.unwrap(), t_a_b, "Registry returned a transform that is different");

    let r = registry.get_transform("a", "c", t_a_c.timestamp);
    assert!(r.is_ok(), "Registry returned Error, expected Ok");
    assert_eq!(r.unwrap(), t_a_c, "Registry returned a transform that is different");
}

#[test]
fn basic_interpolation() {
    let mut registry = Registry::new(Duration::from_secs(10));
    let t = Timestamp::now();
    let t_a_b_0 = tf("a", "b", t, (1., 0., 0.), id());
    let t_a_b_1 = tf("a", "b", (t + Duration::from_secs(1)).unwrap(), (0., 1., 0.), rot90z());
    registry.add_transform(t_a_b_0.clone()).unwrap();
    registry.add_transform(t_a_b_1.clone()).unwrap();

    let middle_timestamp = Timestamp {
        nanoseconds: (t_a_b_0.timestamp.nanoseconds + t_a_b_1.timestamp.nanoseconds) / 2,
    };
    let a = t_a_b_0.pose.translation;
    let b = t_a_b_1.pose.translation;
    let t_a_b_2 = Transform {
        pose: Pose {
            translation: Vector3 { x: (a.x + b.x) / 2.0, y: (a.y + b.y) / 2.0, z: (a.z + b.z) / 2.0 },
            rotation: t_a_b_0.pose.rotation.slerp(t_a_b_1.pose.rotation, 0.5),
        },
        timestamp: middle_timestamp,
        parent: "a".into(),
        child: "b".into(),
    };
    let r = registry.get_transform("a", "b", middle_timestamp);
    assert!(r.is_ok(), "Registry returned Error, expected Ok");
    assert_eq!(r.unwrap(), t_a_b_2, "Registry returned a transform that is different");
}

#[test]
fn basic_chained_interpolation() {
    let mut registry = Registry::new(Duration::from_secs(10));
    let t = Timestamp::now();
    let t1 = (t + Duration::from_secs(1)).unwrap();
    let t_a_b_0 = tf("a", "b", t, (1., 0., 0.), id());
    let t_a_b_1 = tf("a", "b", t1, (2., 0., 0.), id());
    let t_b_c_0 = tf("b", "c", t, (0., 1., 0.), id());
    let t_b_c_1 = tf("b", "c", t1, (0., 2., 0.), id());
    registry.add_transform(t_a_b_0.clone()).unwrap();
    registry.add_transform(t_a_b_1.clone()).unwrap();
    registry.add_transform(t_b_c_0.clone()).unwrap();
    registry.add_transform(t_b_c_1.clone()).unwrap();

    let middle_timestamp = Timestamp {
        nanoseconds: (t_a_b_0.timestamp.nanoseconds + t_a_b_1.timestamp.nanoseconds) / 2,
    };
    let t_a_c = tf("a", "c", middle_timestamp, (1.5, 1.5, 0.), id());
    let r = registry.get_transform("a", "c", middle_timestamp);
    assert!(r.is_ok(), "Registry returned Error, expected Ok");
    assert_eq!(r.unwrap(), t_a_c, "Registry returned a transform that is different");
}

#[test]
fn basic_branch_navigation() {
    let mut registry = Registry::new(Duration::from_secs(10));
    let t = Timestamp::now();
    registry.add_transform(tf("a", "b", t, (0., 1., 0.), id())).unwrap();
    registry.add_transform(tf("b", "c", t, (1., 0., 0.), id())).unwrap();
    registry.add_transform(tf("b", "d", t, (2., 0., 0.), id())).unwrap();

    let result = registry.get_transform("c", "d", t);
    assert!(result.is_ok());
    let t_c_d = result.unwrap();
    let t_c_d_expected = tf("c", "d", t, (1., 0., 0.), id());
    assert_eq!(t_c_d, t_c_d_expected);
}

#[test]
fn basic_common_parent_elimination() {
    let mut registry = Registry::new(Duration::from_secs(10));
    let t = Timestamp::now();
    registry.add_transform(tf("a", "b", t, (0., 1., 0.), id())).unwrap();
    registry.add_transform(tf("b", "c", t, (1., 0., 0.), id())).unwrap();
    registry.add_transform(tf("b", "d", t, (2., 0., 0.), id())).unwrap();

    // Both walks toward the shared root exist.
    let from_chain = registry.get_transform("a", "d", t);
    let to_chain = registry.get_transform("a", "c", t);
    assert!(from_chain.is_ok());
    assert!(to_chain.is_ok());
    assert_eq!(from_chain.unwrap(), tf("a", "d", t, (2., 1., 0.), id()));
    assert_eq!(to_chain.unwrap(), tf("a", "c", t, (1., 1., 0.), id()));
}

fn tree_with_gaps(registry: &mut Registry<Pose>, t: Timestamp) {
    registry.add_transform(tf("a", "b", t, (1., 0., 0.), id())).unwrap();
    registry
        .add_transform(tf("a", "b", (t + Duration::from_millis(1000)).unwrap(), (2., 0., 0.), id()))
        .unwrap();
    registry
        .add_transform(tf("b", "c", (t + Duration::from_millis(500)).unwrap(), (0., 1., 0.), id()))
        .unwrap();
    registry
        .add_transform(tf("b", "c", (t + Duration::from_millis(1500)).unwrap(), (0., 2., 0.), id()))
        .unwrap();
}

#[test]
fn test_sync_matching_tree() {
    let mut registry = Registry::new(Duration::from_secs(10));
    let t = Timestamp::now();
    tree_with_gaps(&mut registry, t);
    let middle_timestamp = (t + Duration::from_millis(750)).unwrap();
    let t_a_c = tf("a", "c", middle_timestamp, (1.75, 1.25, 0.), id());
    let r = registry.get_transform("a", "c", middle_timestamp);
    assert!(r.is_ok(), "Registry returned Error, expected Ok");
    assert_eq!(r.unwrap(), t_a_c, "Registry returned a transform that is different");
}

#[test]
fn test_sync_non_matching_tree() {
    let mut registry = Registry::new(Duration::from_secs(1));
    let t = Timestamp::now();
    tree_with_gaps(&mut registry, t);
    let r = registry.get_transform("a", "c", t);
    assert!(r.is_err(), "Registry returned Ok, expected Err");
}

#[test]
fn test_chain_sync() {
    let mut registry = Registry::new(Duration::max_value());
    registry.add_transform(tf("a", "b", Timestamp { nanoseconds: 0 }, (1., 0., 0.), id())).unwrap();
    registry.add_transform(tf("a", "b", Timestamp { nanoseconds: 1_000_000 }, (2., 0., 0.), id())).unwrap();
    registry.add_transform(tf("b", "c", Timestamp { nanoseconds: 500_000 }, (0., 1., 0.), id())).unwrap();
    registry.add_transform(tf("b", "c", Timestamp { nanoseconds: 1_500_000 }, (0., 2., 0.), id())).unwrap();
    let middle_timestamp = Timestamp { nanoseconds: 750_000 };
    let t_a_c = tf("a", "c", middle_timestamp, (1.75, 1.25, 0.), id());
    let r = registry.get_transform("a", "c", middle_timestamp);
    assert!(r.is_ok(), "Registry returned Error, expected Ok");
    assert_eq!(r.unwrap(), t_a_c, "Registry returned a transform that is different");
}

#[test]
fn test_chain_desync() {
    let mut registry = Registry::new(Duration::max_value());
    registry.add_transform(tf("a", "b", Timestamp { nanoseconds: 0 }, (1., 0., 0.), id())).unwrap();
    registry.add_transform(tf("a", "b", Timestamp { nanoseconds: 1_000_000 }, (2., 0., 0.), id())).unwrap();
    registry.add_transform(tf("b", "c", Timestamp { nanoseconds: 2_000_000 }, (0., 1., 0.), id())).unwrap();
    registry.add_transform(tf("b", "c", Timestamp { nanoseconds: 3_000_000 }, (0., 2., 0.), id())).unwrap();
    let middle_timestamp = Timestamp { nanoseconds: 1_000_000 };
    let r = registry.get_transform("a", "c", middle_timestamp);
    assert!(r.is_err(), "Registry returned Ok, expected Err");
}

#[test]
fn test_basic_chain_linear() {
    let mut registry = Registry::new(Duration::max_value());
    let t = Timestamp::now();
    registry.add_transform(tf("a", "b", t, (1., 0., 0.), id())).unwrap();
    registry.add_transform(tf("b", "c", t, (0., 1., 0.), id())).unwrap();
    let r = registry.get_transform("a", "c", t);
    assert!(r.is_ok(), "Registry returned Error, expected Ok");
    assert_eq!(r.unwrap(), tf("a", "c", t, (1., 1., 0.), id()));
}

#[test]
fn unknown_frames_are_not_found() {
    let registry: Registry<Pose> = Registry::new(Duration::from_secs(10));
    let r = registry.get_transform("x", "y", Timestamp::now());
    assert_eq!(r, Err(TransformError::NotFound("x".into(), "y".into())));
}

#[test]
fn single_transform_round_trip() {
    let mut registry = Registry::new(Duration::from_secs(10));
    let t = Timestamp::now();
    let t_a_b = tf("a", "b", t, (1., 2., 3.), rot90z());
    registry.add_transform(t_a_b.clone()).unwrap();
    assert_eq!(registry.get_transform("a", "b", t).unwrap(), t_a_b);
    assert_eq!(registry.get_transform("b", "a", t).unwrap(), t_a_b.inverse().unwrap());
}

#[test]
fn static_transform_serves_every_instant() {
    let mut registry = Registry::new(Duration::from_secs(10));
    let t_a_b = tf("a", "b", Timestamp::zero(), (1., 0., 0.), id());
    registry.add_transform(t_a_b.clone()).unwrap();
    let r = registry.get_transform("a", "b", Timestamp { nanoseconds: 42 }).unwrap();
    assert_eq!(r, t_a_b);
}

#[test]
fn lookup_outside_the_window_is_not_found() {
    let mut registry = Registry::new(Duration::from_secs(10));
    let t = Timestamp::now();
    registry.add_transform(tf("a", "b", t, (1., 0., 0.), id())).unwrap();
    let later = (t + Duration::from_secs(1)).unwrap();
    let r = registry.get_transform("a", "b", later);
    assert_eq!(r, Err(TransformError::NotFound("a".into(), "b".into())));
}

#[test]
fn cycle_without_target_terminates() {
    let mut registry = Registry::new(Duration::from_secs(10));
    let t = Timestamp::now();
    registry.add_transform(tf("a", "b", t, (1., 0., 0.), id())).unwrap();
    registry.add_transform(tf("b", "a", t, (-1., 0., 0.), id())).unwrap();
    // The walk from "a" stops after one lap: a -> b -> a.
    let r = registry.get_transform("a", "z", t).unwrap();
    assert_eq!((r.parent.as_str(), r.child.as_str()), ("a", "a"));
    assert_eq!(r.pose, Pose::identity());
}

#[test]
fn identity_is_a_unit() {
    let t = tf("a", "b", Timestamp::now(), (1., 2., 3.), rot90z());
    let inv = t.inverse().unwrap();
    let both = t.clone().compose(inv.clone()).unwrap();
    assert_eq!(both.pose, Pose::identity());
    assert_eq!((both.parent.as_str(), both.child.as_str()), ("a", "a"));
    let back = inv.compose(t).unwrap();
    assert_eq!(back.pose, Pose::identity());
}

#[test]
fn inverse_swaps_frames() {
    let t = tf("a", "b", Timestamp { nanoseconds: 9 }, (1., 0., 0.), rot90z());
    let inv = t.inverse().unwrap();
    assert_eq!(inv.parent, "b");
    assert_eq!(inv.child, "a");
    assert_eq!(inv.timestamp, t.timestamp);
}

#[test]
fn inverse_of_zero_rotation_fails() {
    let t = tf("a", "b", Timestamp { nanoseconds: 9 }, (1., 0., 0.), Quaternion { w: 0., x: 0., y: 0., z: 0. });
    assert_eq!(
        t.inverse(),
        Err(TransformError::QuaternionError(QuaternionError::ZeroLengthNormalization))
    );
}

#[test]
fn composition_is_associative() {
    let s = Timestamp { nanoseconds: 7 };
    let a = tf("a", "b", s, (1., 0., 0.), rot90z());
    let b = tf("b", "c", s, (0., 1., 0.), id());
    let c = tf("c", "d", s, (0., 0., 1.), rot90z());
    let left = a.clone().compose(b.clone()).unwrap().compose(c.clone()).unwrap();
    let right = a.compose(b.compose(c).unwrap()).unwrap();
    assert_eq!(left, right);
}

#[test]
fn composition_errors() {
    let a = tf("a", "b", Timestamp { nanoseconds: 7 }, (1., 0., 0.), id());
    let b = tf("b", "c", Timestamp { nanoseconds: 8 }, (1., 0., 0.), id());
    assert_eq!(
        a.clone().compose(b),
        Err(TransformError::TimestampMismatch(Timestamp { nanoseconds: 7 }, Timestamp { nanoseconds: 8 }))
    );
    let same = tf("x", "b", Timestamp { nanoseconds: 7 }, (1., 0., 0.), id());
    assert_eq!(a.clone().compose(same), Err(TransformError::SameFrameMultiplication));
    let apart = tf("x", "y", Timestamp { nanoseconds: 7 }, (1., 0., 0.), id());
    assert_eq!(a.compose(apart), Err(TransformError::IncompatibleFrames));
}

#[test]
fn interpolation_endpoints_and_midpoint() {
    let a = tf("a", "b", Timestamp { nanoseconds: 100 }, (0., 0., 0.), id());
    let b = tf("a", "b", Timestamp { nanoseconds: 300 }, (2., 4., 0.), rot90z());
    let at_a = Transform::interpolate(a.clone(), b.clone(), a.timestamp).unwrap();
    assert_eq!(at_a, a);
    let at_b = Transform::interpolate(a.clone(), b.clone(), b.timestamp).unwrap();
    assert_eq!(at_b, b);
    let same = Transform::interpolate(a.clone(), a.clone(), a.timestamp).unwrap();
    assert_eq!(same, a);
    let mid = Transform::interpolate(a.clone(), b.clone(), Timestamp { nanoseconds: 200 }).unwrap();
    assert_eq!(mid.pose.translation, Vector3 { x: 1., y: 2., z: 0. });
    assert_eq!(mid.pose.rotation, id().slerp(rot90z(), 0.5));
    assert_eq!(mid.timestamp, Timestamp { nanoseconds: 200 });
}

#[test]
fn interpolation_errors() {
    let a = tf("a", "b", Timestamp { nanoseconds: 100 }, (0., 0., 0.), id());
    let b = tf("a", "b", Timestamp { nanoseconds: 300 }, (2., 4., 0.), id());
    assert_eq!(
        Transform::interpolate(a.clone(), b.clone(), Timestamp { nanoseconds: 301 }),
        Err(TransformError::TimestampMismatch(b.timestamp, a.timestamp))
    );
    let c = tf("a", "c", Timestamp { nanoseconds: 300 }, (2., 4., 0.), id());
    assert_eq!(
        Transform::interpolate(a, c, Timestamp { nanoseconds: 200 }),
        Err(TransformError::IncompatibleFrames)
    );
}

#[test]
fn transform_creation() {
    let t: Transform<Pose> = Transform::identity();
    assert_eq!(t.timestamp, Timestamp::zero());
    assert_eq!(t.parent, "");
    assert_eq!(t.child, "");
    assert_eq!(t.pose, Pose::identity());
}

#[test]
fn point_creation() {
    let s = Timestamp { nanoseconds: 5 };
    let mut point = Point {
        pose: Pose { translation: Vector3 { x: 1., y: 0., z: 0. }, rotation: id() },
        timestamp: s,
        frame: "camera".into(),
    };
    let t = tf("base", "camera", s, (0., 1., 0.), id());
    point.transform(&t).unwrap();
    assert_eq!(point.pose.translation, Vector3 { x: 1., y: 1., z: 0. });
    assert_eq!(point.frame, "base");
}

#[test]
fn point_rejects_wrong_frame_and_stamp() {
    let s = Timestamp { nanoseconds: 5 };
    let mut point = Point { pose: Pose::identity(), timestamp: s, frame: "camera".into() };
    let elsewhere = tf("base", "lidar", s, (0., 1., 0.), id());
    assert_eq!(point.transform(&elsewhere), Err(TransformError::IncompatibleFrames));
    let later = tf("base", "camera", Timestamp { nanoseconds: 6 }, (0., 1., 0.), id());
    assert_eq!(
        point.transform(&later),
        Err(TransformError::TimestampMismatch(s, Timestamp { nanoseconds: 6 }))
    );
    assert_eq!(point.frame, "camera");
}

#[test]
fn lookup_through_uninvertible_rotation_fails() {
    let mut registry = Registry::new(Duration::from_secs(10));
    let t = Timestamp::now();
    let zero = Quaternion { w: 0., x: 0., y: 0., z: 0. };
    registry.add_transform(tf("a", "b", t, (1., 0., 0.), zero)).unwrap();
    assert_eq!(
        registry.get_transform("a", "b", t),
        Err(TransformError::QuaternionError(QuaternionError::ZeroLengthNormalization))
    );
}
