//! The remote image-manifest data model: the states, types and file
//! descriptions of installable images, as plain values.

use vstd::prelude::*;

verus! {

/// The lifecycle state of an image on its server.
#[derive(Debug, Clone, Copy, PartialEq, Eq, Structural)]
pub enum ImageState {
    Active,
    Unactivated,
    Disabled,
    Creating,
    Failed,
}

/// What kind of machine an image provisions.
#[derive(Debug, Clone, Copy, PartialEq, Eq, Structural)]
pub enum ImageType {
    ZoneDataset,
    LxDataset,
    Lxd,
    Zvol,
    Other,
}

impl ImageType {
    /// The wire name of the image type.
    pub fn to_string(&self) -> (r: String)
        ensures
            (match self {
                ImageType::ZoneDataset => r@ == "zone-dataset"@,
                ImageType::LxDataset => r@ == "lx-dataset"@,
                ImageType::Lxd => r@ == "lxd"@,
                ImageType::Zvol => r@ == "zvol"@,
                ImageType::Other => r@ == "other"@,
            }),
    {
        match self {
            ImageType::ZoneDataset => String::from_str("zone-dataset"),
            ImageType::LxDataset => String::from_str("lx-dataset"),
            ImageType::Lxd => String::from_str("lxd"),
            ImageType::Zvol => String::from_str("zvol"),
            ImageType::Other => String::from_str("other"),
        }
    }
}

/// The operating-system family an image provides.
#[derive(Debug, Clone, Copy, PartialEq, Eq, Structural)]
pub enum ImageOs {
    Smartos,
    Windows,
    Linux,
    Bsd,
    Illumos,
    Other,
}

/// A network an image requires for provisioning.
#[derive(Debug, Clone)]
pub struct RequirementNetworks {
    pub name: String,
    pub description: String,
}

/// The firmware interface an image must boot with.
#[derive(Debug, Clone, Copy, PartialEq, Eq, Structural)]
pub enum ImageRequirementBootRom {
    Bios,
    Uefi,
}

/// An account for which a password should be generated at provisioning.
#[derive(Debug, Clone)]
pub struct ImageUsers {
    pub name: String,
}

/// The virtual-machine properties of a machine image.
#[derive(Debug, Clone)]
pub struct ImageVMProperties {
    pub nic_driver: String,
    pub disk_driver: String,
    pub cpu_type: String,
    pub image_size: u64,
}

/// The compression applied to an image file.
#[derive(Debug, Clone, Copy, PartialEq, Eq, Structural)]
pub enum ImageFileCompression {
    Bzip2,
    Gzip,
    Uncompressed,
}

/// One downloadable file of an image, with its corruption-checking digest.
#[derive(Debug, Clone)]
pub struct ImageFile {
    pub sha1: String,
    pub size: i64,
    pub compression: ImageFileCompression,
    pub dataset_guid: Option<String>,
    pub stor: Option<String>,
    pub digest: Option<String>,
    pub uncompressed_digest: Option<String>,
}

/// The named requirements for provisioning a machine with an image. The
/// platform bounds are name-value pairs in their wire order.
#[derive(Debug, Clone)]
pub struct ImageRequirements {
    pub networks: Option<Vec<RequirementNetworks>>,
    pub brand: Option<String>,
    pub ssh_key: Option<bool>,
    pub min_ram: Option<i64>,
    pub max_ram: Option<i64>,
    pub min_platform: Option<Vec<(String, String)>>,
    pub max_platform: Option<Vec<(String, String)>>,
    pub bootrom: Option<ImageRequirementBootRom>,
}

/// A whole image manifest. The identifier, timestamp and address fields are
/// carried as their wire text: nothing here computes on them, and the remote
/// server defines their formats.
#[derive(Debug, Clone)]
pub struct Manifest {
    pub v: i32,
    pub uuid: String,
    pub owner: String,
    pub name: String,
    pub version: String,
    pub description: Option<String>,
    pub homepage: Option<String>,
    pub eula: Option<String>,
    pub icon: Option<bool>,
    pub state: ImageState,
    pub error: Option<Vec<(String, String)>>,
    pub disabled: bool,
    pub public: bool,
    pub published_at: Option<String>,
    pub image_type: ImageType,
    pub os: ImageOs,
    pub origin: Option<String>,
    pub files: Vec<ImageFile>,
    pub acl: Option<Vec<String>>,
    pub requirements: Option<ImageRequirements>,
    pub users: Option<Vec<ImageUsers>>,
    pub billing_tags: Option<Vec<String>>,
    pub traits: Option<Vec<String>>,
    pub tags: Option<Vec<(String, String)>>,
    pub generate_password: Option<bool>,
    pub inherited_directories: Option<Vec<String>>,
    pub channels: Option<Vec<String>>,
    pub vm_image_properties: Option<ImageVMProperties>,
}

} // verus!
