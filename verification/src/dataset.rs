//! The dataset bundle: the four decoded pieces of a full dataset and the
//! composed load that produces them from four byte sources.

use vstd::prelude::*;

use crate::decode::{decode_images, decode_labels, spec_decode_images, spec_decode_labels};
use crate::error::MnistError;
use crate::image::Image;
use crate::{IMAGE_HEIGHT, IMAGE_WIDTH};

verus! {

/// Whether a decoded label sequence and a decoded image sequence of one
/// split have matching cardinality. A failed decode never produces a
/// bundle, so failures are unconstrained.
pub open spec fn counts_match(
    labels: Result<Seq<u8>, MnistError>,
    images: Result<Seq<Seq<u8>>, MnistError>,
) -> bool {
    match (labels, images) {
        (Ok(ls), Ok(imgs)) => ls.len() == imgs.len(),
        _ => true,
    }
}

/// What loading a bundle returns, for every four byte sources: the decoded
/// (train images, train labels, test images, test labels), or the error of
/// the first failing decode, in the order train labels, train images, test
/// labels, test images.
pub open spec fn spec_load(ti: Seq<u8>, tl: Seq<u8>, si: Seq<u8>, sl: Seq<u8>) -> Result<
    (Seq<Seq<u8>>, Seq<u8>, Seq<Seq<u8>>, Seq<u8>),
    MnistError,
> {
    match spec_decode_labels(tl) {
        Err(e) => Err(e),
        Ok(tls) => match spec_decode_images(ti, IMAGE_WIDTH, IMAGE_HEIGHT) {
            Err(e) => Err(e),
            Ok(tis) => match spec_decode_labels(sl) {
                Err(e) => Err(e),
                Ok(sls) => match spec_decode_images(si, IMAGE_WIDTH, IMAGE_HEIGHT) {
                    Err(e) => Err(e),
                    Ok(sis) => Ok((tis, tls, sis, sls)),
                },
            },
        },
    }
}

/// A full dataset: images and labels of the train and test splits, each in
/// file order, with matching cardinality per split.
#[derive(Debug)]
pub struct Mnist {
    pub train_images: Vec<Image>,
    pub train_labels: Vec<u8>,
    pub test_images: Vec<Image>,
    pub test_labels: Vec<u8>,
}

impl Mnist {
    /// Decodes the four byte sources of a dataset — train images, train
    /// labels, test images, test labels — at the canonical resolution and
    /// returns the bundle, or the error of the first failing decode,
    /// unchanged and unaggregated.
    ///
    /// The caller owes matching per-split cardinality for sources that all
    /// decode: a bundle with unequal splits must never exist, so such
    /// sources are excluded by contract rather than answered.
    pub fn load(
        train_images_bytes: &Vec<u8>,
        train_labels_bytes: &Vec<u8>,
        test_images_bytes: &Vec<u8>,
        test_labels_bytes: &Vec<u8>,
    ) -> (result: Result<Mnist, MnistError>)
        requires
            counts_match(
                spec_decode_labels(train_labels_bytes@),
                spec_decode_images(train_images_bytes@, IMAGE_WIDTH, IMAGE_HEIGHT),
            ),
            counts_match(
                spec_decode_labels(test_labels_bytes@),
                spec_decode_images(test_images_bytes@, IMAGE_WIDTH, IMAGE_HEIGHT),
            ),
        ensures
            result is Ok <==> spec_load(
                train_images_bytes@,
                train_labels_bytes@,
                test_images_bytes@,
                test_labels_bytes@,
            ) is Ok,
            result matches Ok(m) ==> {
                let loaded = spec_load(
                    train_images_bytes@,
                    train_labels_bytes@,
                    test_images_bytes@,
                    test_labels_bytes@,
                )->Ok_0;
                &&& m.train_labels@ == loaded.1
                &&& m.test_labels@ == loaded.3
                &&& m.train_images@.len() == loaded.0.len()
                &&& forall|i: int|
                    0 <= i < m.train_images@.len() ==> {
                        &&& m.train_images@[i]@ == loaded.0[i]
                        &&& m.train_images@[i].width() == IMAGE_WIDTH as usize
                        &&& m.train_images@[i].height() == IMAGE_HEIGHT as usize
                        &&& m.train_images@[i].wf()
                    }
                &&& m.test_images@.len() == loaded.2.len()
                &&& forall|i: int|
                    0 <= i < m.test_images@.len() ==> {
                        &&& m.test_images@[i]@ == loaded.2[i]
                        &&& m.test_images@[i].width() == IMAGE_WIDTH as usize
                        &&& m.test_images@[i].height() == IMAGE_HEIGHT as usize
                        &&& m.test_images@[i].wf()
                    }
                &&& m.train_labels@.len() == m.train_images@.len()
                &&& m.test_labels@.len() == m.test_images@.len()
            },
            result matches Err(e) ==> e == spec_load(
                train_images_bytes@,
                train_labels_bytes@,
                test_images_bytes@,
                test_labels_bytes@,
            )->Err_0,
    {
        let train_labels = match decode_labels(train_labels_bytes) {
            Ok(v) => v,
            Err(e) => return Err(e),
        };
        let train_images = match decode_images(train_images_bytes, IMAGE_WIDTH, IMAGE_HEIGHT) {
            Ok(v) => v,
            Err(e) => return Err(e),
        };
        let test_labels = match decode_labels(test_labels_bytes) {
            Ok(v) => v,
            Err(e) => return Err(e),
        };
        let test_images = match decode_images(test_images_bytes, IMAGE_WIDTH, IMAGE_HEIGHT) {
            Ok(v) => v,
            Err(e) => return Err(e),
        };
        proof {
            assert forall|i: int| 0 <= i < train_images@.len() implies train_images@[i].wf()
                && train_images@[i].width() == IMAGE_WIDTH as usize && train_images@[i].height()
                == IMAGE_HEIGHT as usize by {
                assert(train_images@[i]@ == spec_decode_images(
                    train_images_bytes@,
                    IMAGE_WIDTH,
                    IMAGE_HEIGHT,
                )->Ok_0[i]);
            }
            assert forall|i: int| 0 <= i < test_images@.len() implies test_images@[i].wf()
                && test_images@[i].width() == IMAGE_WIDTH as usize && test_images@[i].height()
                == IMAGE_HEIGHT as usize by {
                assert(test_images@[i]@ == spec_decode_images(
                    test_images_bytes@,
                    IMAGE_WIDTH,
                    IMAGE_HEIGHT,
                )->Ok_0[i]);
            }
        }
        Ok(Mnist { train_images, train_labels, test_images, test_labels })
    }
}

} // verus!
