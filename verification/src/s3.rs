//! The object-storage adapter.
//!
//! The adapter plans the upload and the presigned-link request that the
//! service issues for each image. The network call, and the signing that
//! the storage provider's credentials feed, are the runtime's job; the
//! contracts pin down what is uploaded where and for how long a link
//! must stay valid.

use vstd::prelude::*;

use crate::config::S3Config;

verus! {

/// A planned upload: these bytes, under this key, in this bucket.
#[derive(Debug)]
pub struct UploadRequest {
    pub bucket: String,
    pub key: String,
    pub content_type: String,
    pub body: Vec<u8>,
}

/// A planned presigned-link request: this key, valid this long.
#[derive(Debug)]
pub struct PresignRequest {
    pub bucket: String,
    pub key: String,
    pub expiration_secs: u32,
}

/// The object-storage adapter: it owns the bucket name and plans every
/// operation against the bucket.
pub struct S3 {
    pub bucket_name: String,
}

impl S3 {
    pub fn new(s3_config: &S3Config) -> (s: S3)
        ensures
            s.bucket_name@ == s3_config.bucket_name@,
    {
        S3 { bucket_name: s3_config.bucket_name.clone() }
    }

    /// Plans the upload of one image under `filename`.
    pub fn upload(&self, filename: &str, image: Vec<u8>) -> (u: UploadRequest)
        ensures
            u.bucket@ == self.bucket_name@,
            u.key@ == filename@,
            u.content_type@ == "image/png"@,
            u.body@ == image@,
    {
        UploadRequest {
            bucket: self.bucket_name.clone(),
            key: filename.to_owned(),
            content_type: "image/png".to_owned(),
            body: image,
        }
    }

    /// Plans the presigned retrieval link for `filename`, valid for
    /// `expiration_secs` from issuance.
    pub fn get_presigned_url(&self, filename: &str, expiration_secs: u32) -> (p: PresignRequest)
        ensures
            p.bucket@ == self.bucket_name@,
            p.key@ == filename@,
            p.expiration_secs == expiration_secs,
    {
        PresignRequest {
            bucket: self.bucket_name.clone(),
            key: filename.to_owned(),
            expiration_secs,
        }
    }
}

} // verus!
