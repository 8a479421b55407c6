//! The records that the vision pipeline sends, and the poses of the robot.
//!
//! A record is decoded field by field in the order in which the fields are
//! declared. A binary64 or binary32 number is kept as its bit pattern.

use vstd::prelude::*;
use super::end_of;
use super::field;
use super::Cursor;
use super::Deserialize;
use super::DeserializeError;

verus! {

/// The identity of a fiducial marker, where the target is one.
#[derive(Clone, Copy, Debug, PartialEq, Eq, Hash)]
pub struct FiducialId(pub Option<u32>);

impl DeepView for FiducialId {
    type V = FiducialId;

    open spec fn deep_view(&self) -> FiducialId {
        *self
    }
}

impl Deserialize for FiducialId {
    /// A signed number of four bytes: -1 stands for no marker, and any
    /// other number is the identity with the same bits.
    open spec fn decoded(data: Seq<u8>, pos: nat) -> Option<(FiducialId, nat)> {
        match <u32 as Deserialize>::decoded(data, pos) {
            None => None,
            Some((bits, p)) => if bits == 0xFFFF_FFFF {
                Some((FiducialId(None), p))
            } else {
                Some((FiducialId(Some(bits)), p))
            },
        }
    }

    fn deserialize(data: &mut Cursor) -> (r: Result<FiducialId, DeserializeError>) {
        let bits = <u32 as Deserialize>::deserialize(data)?;
        if bits == 0xFFFF_FFFF {
            Ok(FiducialId(None))
        } else {
            Ok(FiducialId(Some(bits)))
        }
    }
}

/// A rotation in space as a unit quaternion. Each component is a binary64 bit
/// pattern.
#[derive(Clone, Copy, Debug, PartialEq, Eq, Hash)]
pub struct Quaternion {
    pub w: u64,
    pub x: u64,
    pub y: u64,
    pub z: u64,
}

impl DeepView for Quaternion {
    type V = Quaternion;

    open spec fn deep_view(&self) -> Quaternion {
        *self
    }
}

impl Deserialize for Quaternion {
    open spec fn decoded(data: Seq<u8>, pos: nat) -> Option<(Quaternion, nat)> {
        let w = field::<u64>(data, Some(pos));
        let x = field::<u64>(data, end_of(w));
        let y = field::<u64>(data, end_of(x));
        let z = field::<u64>(data, end_of(y));
        match end_of(z) {
            None => None,
            Some(end) => Some(
                (
                    Quaternion {
                        w: w.unwrap().0,
                        x: x.unwrap().0,
                        y: y.unwrap().0,
                        z: z.unwrap().0,
                    },
                    end,
                ),
            ),
        }
    }

    fn deserialize(data: &mut Cursor) -> (r: Result<Quaternion, DeserializeError>) {
        let w = <u64 as Deserialize>::deserialize(data)?;
        let x = <u64 as Deserialize>::deserialize(data)?;
        let y = <u64 as Deserialize>::deserialize(data)?;
        let z = <u64 as Deserialize>::deserialize(data)?;
        Ok(Quaternion { w, x, y, z })
    }
}

/// A translation in space. Each component is a binary64 bit pattern.
#[derive(Clone, Copy, Debug, PartialEq, Eq, Hash)]
pub struct Translate3D {
    pub x: u64,
    pub y: u64,
    pub z: u64,
}

impl DeepView for Translate3D {
    type V = Translate3D;

    open spec fn deep_view(&self) -> Translate3D {
        *self
    }
}

impl Deserialize for Translate3D {
    open spec fn decoded(data: Seq<u8>, pos: nat) -> Option<(Translate3D, nat)> {
        let x = field::<u64>(data, Some(pos));
        let y = field::<u64>(data, end_of(x));
        let z = field::<u64>(data, end_of(y));
        match end_of(z) {
            None => None,
            Some(end) => Some(
                (
                    Translate3D {
                        x: x.unwrap().0,
                        y: y.unwrap().0,
                        z: z.unwrap().0,
                    },
                    end,
                ),
            ),
        }
    }

    fn deserialize(data: &mut Cursor) -> (r: Result<Translate3D, DeserializeError>) {
        let x = <u64 as Deserialize>::deserialize(data)?;
        let y = <u64 as Deserialize>::deserialize(data)?;
        let z = <u64 as Deserialize>::deserialize(data)?;
        Ok(Translate3D { x, y, z })
    }
}

/// A translation followed by a rotation.
#[derive(Clone, Copy, Debug, PartialEq, Eq, Hash)]
pub struct Transform3D {
    pub translation: Translate3D,
    pub rotation: Quaternion,
}

impl DeepView for Transform3D {
    type V = Transform3D;

    open spec fn deep_view(&self) -> Transform3D {
        *self
    }
}

impl Deserialize for Transform3D {
    open spec fn decoded(data: Seq<u8>, pos: nat) -> Option<(Transform3D, nat)> {
        let translation = field::<Translate3D>(data, Some(pos));
        let rotation = field::<Quaternion>(data, end_of(translation));
        match end_of(rotation) {
            None => None,
            Some(end) => Some(
                (
                    Transform3D {
                        translation: translation.unwrap().0,
                        rotation: rotation.unwrap().0,
                    },
                    end,
                ),
            ),
        }
    }

    fn deserialize(data: &mut Cursor) -> (r: Result<Transform3D, DeserializeError>) {
        let translation = <Translate3D as Deserialize>::deserialize(data)?;
        let rotation = <Quaternion as Deserialize>::deserialize(data)?;
        Ok(Transform3D { translation, rotation })
    }
}

/// What an object detector made of a target.
#[derive(Clone, Copy, Debug, PartialEq, Eq, Hash)]
pub struct DetectedObject {
    /// The class of the object.
    pub id: u64,
    /// How sure the detector is, a binary32 bit pattern.
    pub confidence: u32,
}

impl DeepView for DetectedObject {
    type V = DetectedObject;

    open spec fn deep_view(&self) -> DetectedObject {
        *self
    }
}

impl Deserialize for DetectedObject {
    open spec fn decoded(data: Seq<u8>, pos: nat) -> Option<(DetectedObject, nat)> {
        let id = field::<u64>(data, Some(pos));
        let confidence = field::<u32>(data, end_of(id));
        match end_of(confidence) {
            None => None,
            Some(end) => Some(
                (
                    DetectedObject {
                        id: id.unwrap().0,
                        confidence: confidence.unwrap().0,
                    },
                    end,
                ),
            ),
        }
    }

    fn deserialize(data: &mut Cursor) -> (r: Result<DetectedObject, DeserializeError>) {
        let id = <u64 as Deserialize>::deserialize(data)?;
        let confidence = <u32 as Deserialize>::deserialize(data)?;
        Ok(DetectedObject { id, confidence })
    }
}

/// The two candidate poses of a target relative to the camera.
#[derive(Clone, Copy, Debug, PartialEq, Eq, Hash)]
pub struct TargetTransforms {
    pub best: Transform3D,
    pub alt: Transform3D,
}

impl DeepView for TargetTransforms {
    type V = TargetTransforms;

    open spec fn deep_view(&self) -> TargetTransforms {
        *self
    }
}

impl Deserialize for TargetTransforms {
    open spec fn decoded(data: Seq<u8>, pos: nat) -> Option<(TargetTransforms, nat)> {
        let best = field::<Transform3D>(data, Some(pos));
        let alt = field::<Transform3D>(data, end_of(best));
        match end_of(alt) {
            None => None,
            Some(end) => Some(
                (
                    TargetTransforms {
                        best: best.unwrap().0,
                        alt: alt.unwrap().0,
                    },
                    end,
                ),
            ),
        }
    }

    fn deserialize(data: &mut Cursor) -> (r: Result<TargetTransforms, DeserializeError>) {
        let best = <Transform3D as Deserialize>::deserialize(data)?;
        let alt = <Transform3D as Deserialize>::deserialize(data)?;
        Ok(TargetTransforms { best, alt })
    }
}

/// A corner of a target in the image. Each coordinate is a binary64 bit
/// pattern.
#[derive(Clone, Copy, Debug, PartialEq, Eq, Hash)]
pub struct TargetCorner {
    pub x: u64,
    pub y: u64,
}

impl DeepView for TargetCorner {
    type V = TargetCorner;

    open spec fn deep_view(&self) -> TargetCorner {
        *self
    }
}

impl Deserialize for TargetCorner {
    open spec fn decoded(data: Seq<u8>, pos: nat) -> Option<(TargetCorner, nat)> {
        let x = field::<u64>(data, Some(pos));
        let y = field::<u64>(data, end_of(x));
        match end_of(y) {
            None => None,
            Some(end) => Some(
                (
                    TargetCorner {
                        x: x.unwrap().0,
                        y: y.unwrap().0,
                    },
                    end,
                ),
            ),
        }
    }

    fn deserialize(data: &mut Cursor) -> (r: Result<TargetCorner, DeserializeError>) {
        let x = <u64 as Deserialize>::deserialize(data)?;
        let y = <u64 as Deserialize>::deserialize(data)?;
        Ok(TargetCorner { x, y })
    }
}

/// A pose estimate with its alternative and their errors. Each error and
/// the ambiguity is a binary64 bit pattern.
#[derive(Clone, Copy, Debug, PartialEq, Eq, Hash)]
pub struct PNPResult {
    pub best: Transform3D,
    pub alt: Transform3D,
    pub error: u64,
    pub alt_error: u64,
    pub ambiguity: u64,
}

impl DeepView for PNPResult {
    type V = PNPResult;

    open spec fn deep_view(&self) -> PNPResult {
        *self
    }
}

impl Deserialize for PNPResult {
    open spec fn decoded(data: Seq<u8>, pos: nat) -> Option<(PNPResult, nat)> {
        let best = field::<Transform3D>(data, Some(pos));
        let alt = field::<Transform3D>(data, end_of(best));
        let error = field::<u64>(data, end_of(alt));
        let alt_error = field::<u64>(data, end_of(error));
        let ambiguity = field::<u64>(data, end_of(alt_error));
        match end_of(ambiguity) {
            None => None,
            Some(end) => Some(
                (
                    PNPResult {
                        best: best.unwrap().0,
                        alt: alt.unwrap().0,
                        error: error.unwrap().0,
                        alt_error: alt_error.unwrap().0,
                        ambiguity: ambiguity.unwrap().0,
                    },
                    end,
                ),
            ),
        }
    }

    fn deserialize(data: &mut Cursor) -> (r: Result<PNPResult, DeserializeError>) {
        let best = <Transform3D as Deserialize>::deserialize(data)?;
        let alt = <Transform3D as Deserialize>::deserialize(data)?;
        let error = <u64 as Deserialize>::deserialize(data)?;
        let alt_error = <u64 as Deserialize>::deserialize(data)?;
        let ambiguity = <u64 as Deserialize>::deserialize(data)?;
        Ok(PNPResult { best, alt, error, alt_error, ambiguity })
    }
}

/// A pose estimate from several fiducial markers at once.
#[derive(Clone, Copy, Debug, PartialEq, Eq, Hash)]
pub struct MultiTargetPNP {
    pub pnp: PNPResult,
    /// The number of markers that took part.
    pub num_fiducials: u16,
}

impl DeepView for MultiTargetPNP {
    type V = MultiTargetPNP;

    open spec fn deep_view(&self) -> MultiTargetPNP {
        *self
    }
}

impl Deserialize for MultiTargetPNP {
    open spec fn decoded(data: Seq<u8>, pos: nat) -> Option<(MultiTargetPNP, nat)> {
        let pnp = field::<PNPResult>(data, Some(pos));
        let num_fiducials = field::<u16>(data, end_of(pnp));
        match end_of(num_fiducials) {
            None => None,
            Some(end) => Some(
                (
                    MultiTargetPNP {
                        pnp: pnp.unwrap().0,
                        num_fiducials: num_fiducials.unwrap().0,
                    },
                    end,
                ),
            ),
        }
    }

    fn deserialize(data: &mut Cursor) -> (r: Result<MultiTargetPNP, DeserializeError>) {
        let pnp = <PNPResult as Deserialize>::deserialize(data)?;
        let num_fiducials = <u16 as Deserialize>::deserialize(data)?;
        Ok(MultiTargetPNP { pnp, num_fiducials })
    }
}

/// The bookkeeping that comes with every result of the pipeline. Each time
/// is a number of microseconds.
#[derive(Clone, Copy, Debug, PartialEq, Eq, Hash)]
pub struct PhotonPipelineMetadata {
    /// The sequence number of the result.
    pub seqid: u64,
    /// When the image was captured.
    pub capture_time: u64,
    /// When the result was published.
    pub publish_time: u64,
    /// When the last time synchronisation took place.
    pub last_handshake: u64,
}

impl DeepView for PhotonPipelineMetadata {
    type V = PhotonPipelineMetadata;

    open spec fn deep_view(&self) -> PhotonPipelineMetadata {
        *self
    }
}

impl Deserialize for PhotonPipelineMetadata {
    open spec fn decoded(data: Seq<u8>, pos: nat) -> Option<(PhotonPipelineMetadata, nat)> {
        let seqid = field::<u64>(data, Some(pos));
        let capture_time = field::<u64>(data, end_of(seqid));
        let publish_time = field::<u64>(data, end_of(capture_time));
        let last_handshake = field::<u64>(data, end_of(publish_time));
        match end_of(last_handshake) {
            None => None,
            Some(end) => Some(
                (
                    PhotonPipelineMetadata {
                        seqid: seqid.unwrap().0,
                        capture_time: capture_time.unwrap().0,
                        publish_time: publish_time.unwrap().0,
                        last_handshake: last_handshake.unwrap().0,
                    },
                    end,
                ),
            ),
        }
    }

    fn deserialize(data: &mut Cursor) -> (r: Result<PhotonPipelineMetadata, DeserializeError>) {
        let seqid = <u64 as Deserialize>::deserialize(data)?;
        let capture_time = <u64 as Deserialize>::deserialize(data)?;
        let publish_time = <u64 as Deserialize>::deserialize(data)?;
        let last_handshake = <u64 as Deserialize>::deserialize(data)?;
        Ok(PhotonPipelineMetadata { seqid, capture_time, publish_time, last_handshake })
    }
}

/// A rotation in the plane. The angle is in radians, a binary64 bit pattern.
#[derive(Clone, Copy, Debug, PartialEq, Eq, Hash)]
pub struct Rotate2d {
    pub angle: u64,
}

impl DeepView for Rotate2d {
    type V = Rotate2d;

    open spec fn deep_view(&self) -> Rotate2d {
        *self
    }
}

impl Deserialize for Rotate2d {
    open spec fn decoded(data: Seq<u8>, pos: nat) -> Option<(Rotate2d, nat)> {
        let angle = field::<u64>(data, Some(pos));
        match end_of(angle) {
            None => None,
            Some(end) => Some(
                (
                    Rotate2d {
                        angle: angle.unwrap().0,
                    },
                    end,
                ),
            ),
        }
    }

    fn deserialize(data: &mut Cursor) -> (r: Result<Rotate2d, DeserializeError>) {
        let angle = <u64 as Deserialize>::deserialize(data)?;
        Ok(Rotate2d { angle })
    }
}

/// A translation in the plane. Each component is in metres, a binary64 bit
/// pattern.
#[derive(Clone, Copy, Debug, PartialEq, Eq, Hash)]
pub struct Translate2d {
    pub x: u64,
    pub y: u64,
}

impl DeepView for Translate2d {
    type V = Translate2d;

    open spec fn deep_view(&self) -> Translate2d {
        *self
    }
}

impl Deserialize for Translate2d {
    open spec fn decoded(data: Seq<u8>, pos: nat) -> Option<(Translate2d, nat)> {
        let x = field::<u64>(data, Some(pos));
        let y = field::<u64>(data, end_of(x));
        match end_of(y) {
            None => None,
            Some(end) => Some(
                (
                    Translate2d {
                        x: x.unwrap().0,
                        y: y.unwrap().0,
                    },
                    end,
                ),
            ),
        }
    }

    fn deserialize(data: &mut Cursor) -> (r: Result<Translate2d, DeserializeError>) {
        let x = <u64 as Deserialize>::deserialize(data)?;
        let y = <u64 as Deserialize>::deserialize(data)?;
        Ok(Translate2d { x, y })
    }
}

/// A position and a heading in the plane.
#[derive(Clone, Copy, Debug, PartialEq, Eq, Hash)]
pub struct Pose2d {
    pub translate: Translate2d,
    pub rotate: Rotate2d,
}

impl DeepView for Pose2d {
    type V = Pose2d;

    open spec fn deep_view(&self) -> Pose2d {
        *self
    }
}

impl Deserialize for Pose2d {
    open spec fn decoded(data: Seq<u8>, pos: nat) -> Option<(Pose2d, nat)> {
        let translate = field::<Translate2d>(data, Some(pos));
        let rotate = field::<Rotate2d>(data, end_of(translate));
        match end_of(rotate) {
            None => None,
            Some(end) => Some(
                (
                    Pose2d {
                        translate: translate.unwrap().0,
                        rotate: rotate.unwrap().0,
                    },
                    end,
                ),
            ),
        }
    }

    fn deserialize(data: &mut Cursor) -> (r: Result<Pose2d, DeserializeError>) {
        let translate = <Translate2d as Deserialize>::deserialize(data)?;
        let rotate = <Rotate2d as Deserialize>::deserialize(data)?;
        Ok(Pose2d { translate, rotate })
    }
}

/// One target that the pipeline found. The angles, the area, the skew and
/// the ambiguity are binary64 bit patterns.
#[derive(Clone, Debug, PartialEq, Eq, Hash)]
pub struct PhotonTrackedTarget {
    pub yaw: u64,
    pub pitch: u64,
    pub area: u64,
    pub skew: u64,
    pub fiducial_id: FiducialId,
    pub detected: DetectedObject,
    pub to_target: TargetTransforms,
    pub ambiguity: u64,
    /// The corners of the smallest rectangle around the target.
    pub area_rect_corners: Vec<TargetCorner>,
    /// The corners that were found on the target.
    pub detected_corners: Vec<TargetCorner>,
}

/// What a `PhotonTrackedTarget` holds, with each list as a sequence.
pub struct PhotonTrackedTargetView {
    pub yaw: u64,
    pub pitch: u64,
    pub area: u64,
    pub skew: u64,
    pub fiducial_id: FiducialId,
    pub detected: DetectedObject,
    pub to_target: TargetTransforms,
    pub ambiguity: u64,
    pub area_rect_corners: Seq<TargetCorner>,
    pub detected_corners: Seq<TargetCorner>,
}

impl DeepView for PhotonTrackedTarget {
    type V = PhotonTrackedTargetView;

    open spec fn deep_view(&self) -> PhotonTrackedTargetView {
        PhotonTrackedTargetView {
            yaw: self.yaw.deep_view(),
            pitch: self.pitch.deep_view(),
            area: self.area.deep_view(),
            skew: self.skew.deep_view(),
            fiducial_id: self.fiducial_id.deep_view(),
            detected: self.detected.deep_view(),
            to_target: self.to_target.deep_view(),
            ambiguity: self.ambiguity.deep_view(),
            area_rect_corners: self.area_rect_corners.deep_view(),
            detected_corners: self.detected_corners.deep_view(),
        }
    }
}

impl Deserialize for PhotonTrackedTarget {
    open spec fn decoded(data: Seq<u8>, pos: nat) -> Option<(PhotonTrackedTargetView, nat)> {
        let yaw = field::<u64>(data, Some(pos));
        let pitch = field::<u64>(data, end_of(yaw));
        let area = field::<u64>(data, end_of(pitch));
        let skew = field::<u64>(data, end_of(area));
        let fiducial_id = field::<FiducialId>(data, end_of(skew));
        let detected = field::<DetectedObject>(data, end_of(fiducial_id));
        let to_target = field::<TargetTransforms>(data, end_of(detected));
        let ambiguity = field::<u64>(data, end_of(to_target));
        let area_rect_corners = field::<Vec<TargetCorner>>(data, end_of(ambiguity));
        let detected_corners = field::<Vec<TargetCorner>>(data, end_of(area_rect_corners));
        match end_of(detected_corners) {
            None => None,
            Some(end) => Some(
                (
                    PhotonTrackedTargetView {
                        yaw: yaw.unwrap().0,
                        pitch: pitch.unwrap().0,
                        area: area.unwrap().0,
                        skew: skew.unwrap().0,
                        fiducial_id: fiducial_id.unwrap().0,
                        detected: detected.unwrap().0,
                        to_target: to_target.unwrap().0,
                        ambiguity: ambiguity.unwrap().0,
                        area_rect_corners: area_rect_corners.unwrap().0,
                        detected_corners: detected_corners.unwrap().0,
                    },
                    end,
                ),
            ),
        }
    }

    fn deserialize(data: &mut Cursor) -> (r: Result<PhotonTrackedTarget, DeserializeError>) {
        let yaw = <u64 as Deserialize>::deserialize(data)?;
        let pitch = <u64 as Deserialize>::deserialize(data)?;
        let area = <u64 as Deserialize>::deserialize(data)?;
        let skew = <u64 as Deserialize>::deserialize(data)?;
        let fiducial_id = <FiducialId as Deserialize>::deserialize(data)?;
        let detected = <DetectedObject as Deserialize>::deserialize(data)?;
        let to_target = <TargetTransforms as Deserialize>::deserialize(data)?;
        let ambiguity = <u64 as Deserialize>::deserialize(data)?;
        let area_rect_corners = <Vec<TargetCorner> as Deserialize>::deserialize(data)?;
        let detected_corners = <Vec<TargetCorner> as Deserialize>::deserialize(data)?;
        Ok(PhotonTrackedTarget {
            yaw,
            pitch,
            area,
            skew,
            fiducial_id,
            detected,
            to_target,
            ambiguity,
            area_rect_corners,
            detected_corners,
        })
    }
}

/// One result of the pipeline: its bookkeeping, the targets that it found,
/// and the pose from several markers where there is one.
#[derive(Clone, Debug, PartialEq, Eq, Hash)]
pub struct PhotonRes {
    pub metadata: PhotonPipelineMetadata,
    pub targets: Vec<PhotonTrackedTarget>,
    pub pnp: Option<MultiTargetPNP>,
}

/// What a `PhotonRes` holds, with each list as a sequence.
pub struct PhotonResView {
    pub metadata: PhotonPipelineMetadata,
    pub targets: Seq<PhotonTrackedTargetView>,
    pub pnp: Option<MultiTargetPNP>,
}

impl DeepView for PhotonRes {
    type V = PhotonResView;

    open spec fn deep_view(&self) -> PhotonResView {
        PhotonResView {
            metadata: self.metadata.deep_view(),
            targets: self.targets.deep_view(),
            pnp: self.pnp.deep_view(),
        }
    }
}

impl Deserialize for PhotonRes {
    open spec fn decoded(data: Seq<u8>, pos: nat) -> Option<(PhotonResView, nat)> {
        let metadata = field::<PhotonPipelineMetadata>(data, Some(pos));
        let targets = field::<Vec<PhotonTrackedTarget>>(data, end_of(metadata));
        let pnp = field::<Option<MultiTargetPNP>>(data, end_of(targets));
        match end_of(pnp) {
            None => None,
            Some(end) => Some(
                (
                    PhotonResView {
                        metadata: metadata.unwrap().0,
                        targets: targets.unwrap().0,
                        pnp: pnp.unwrap().0,
                    },
                    end,
                ),
            ),
        }
    }

    fn deserialize(data: &mut Cursor) -> (r: Result<PhotonRes, DeserializeError>) {
        let metadata = <PhotonPipelineMetadata as Deserialize>::deserialize(data)?;
        let targets = <Vec<PhotonTrackedTarget> as Deserialize>::deserialize(data)?;
        let pnp = <Option<MultiTargetPNP> as Deserialize>::deserialize(data)?;
        Ok(PhotonRes { metadata, targets, pnp })
    }
}

} // verus!
