use vstd::prelude::*;
use vstd::std_specs::convert::FromSpecImpl;

verus! {

/// `uuid::Uuid`: an identifier of 128 bits. Nothing of what it holds is
/// seen here.
#[verifier::external_type_specification]
#[verifier::external_body]
pub struct ExUuid(uuid::Uuid);

/// `Clone` for `uuid::Uuid`, which is `Copy`: the clone is the identifier
/// itself.
pub assume_specification[ <uuid::Uuid as Clone>::clone ](id: &uuid::Uuid) -> (copy: uuid::Uuid)
    ensures
        copy == *id,
;

/// What identifies a global image in the database, and when its row was
/// made, changed and deleted. Times are in microseconds since the epoch.
#[derive(Debug, Clone, PartialEq, Eq)]
pub struct GlobalImageIdentity {
    pub id: uuid::Uuid,
    pub name: String,
    pub description: String,
    pub time_created: i64,
    pub time_modified: i64,
    pub time_deleted: Option<i64>,
}

/// What identifies a resource for clients.
#[derive(Debug, Clone, PartialEq, Eq)]
pub struct IdentityMetadata {
    pub id: uuid::Uuid,
    pub name: String,
    pub description: String,
    pub time_created: i64,
    pub time_modified: i64,
}

/// A global image as the database holds it.
#[derive(Debug, Clone, PartialEq, Eq)]
pub struct GlobalImage {
    pub identity: GlobalImageIdentity,
    /// The volume that holds the image. It is not shown to clients.
    pub volume_id: uuid::Uuid,
    pub url: Option<String>,
    pub distribution: String,
    pub version: String,
    pub digest: Option<String>,
    /// The size of a block of the image, in bytes.
    pub block_size: u32,
    /// The size of the image, in bytes.
    pub size: u64,
}

/// A global image as clients see it.
#[derive(Debug, Clone, PartialEq, Eq)]
pub struct GlobalImageView {
    pub identity: IdentityMetadata,
    pub url: Option<String>,
    pub distribution: String,
    pub version: String,
    pub digest: Option<String>,
    /// The size of a block of the image, in bytes.
    pub block_size: u64,
    /// The size of the image, in bytes.
    pub size: u64,
}

impl GlobalImage {
    /// The identity of the image for clients: that of its row, without the
    /// time of deletion.
    pub open spec fn spec_identity(&self) -> IdentityMetadata {
        IdentityMetadata {
            id: self.identity.id,
            name: self.identity.name,
            description: self.identity.description,
            time_created: self.identity.time_created,
            time_modified: self.identity.time_modified,
        }
    }

    /// The identity of the image for clients.
    pub fn identity(&self) -> (identity: IdentityMetadata)
        ensures
            identity == self.spec_identity(),
    {
        IdentityMetadata {
            id: self.identity.id,
            name: self.identity.name.clone(),
            description: self.identity.description.clone(),
            time_created: self.identity.time_created,
            time_modified: self.identity.time_modified,
        }
    }
}

impl FromSpecImpl<GlobalImage> for GlobalImageView {
    open spec fn obeys_from_spec() -> bool {
        true
    }

    open spec fn from_spec(image: GlobalImage) -> Self {
        GlobalImageView {
            identity: image.spec_identity(),
            url: image.url,
            distribution: image.distribution,
            version: image.version,
            digest: image.digest,
            block_size: image.block_size as u64,
            size: image.size,
        }
    }
}

impl From<GlobalImage> for GlobalImageView {
    /// The image as clients see it: all that the database holds of it but
    /// the volume and the time of deletion.
    fn from(image: GlobalImage) -> (view: Self) {
        GlobalImageView {
            identity: image.identity(),
            url: image.url,
            distribution: image.distribution,
            version: image.version,
            digest: image.digest,
            block_size: image.block_size as u64,
            size: image.size,
        }
    }
}

} // verus!
