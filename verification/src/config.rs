use vstd::prelude::*;

use crate::convert::Convert;

verus! {

/// The options of the `check` command: the markdown file or its directory,
/// and whether only the basic checks run.
pub struct Check {
    pub file_path: String,
    pub basic_check: bool,
}

/// The options of the `real-cugan` command: the image or directory to
/// upscale (the current directory where none is given), and how many images
/// are upscaled at once (1 to 16).
pub struct RealCugan {
    pub image_path: Option<String>,
    pub maximum_concurrency: u8,
}

/// The options of the `template` command: the name of the novel, its cover
/// image, and the conversions of its text.
pub struct Template {
    pub novel_name: String,
    pub cover_image: Option<String>,
    pub converts: Vec<Convert>,
}

/// The options of the `transform` command: the markdown file or its
/// directory, the conversions of its text, and whether the old files are
/// deleted.
pub struct Transform {
    pub file_path: String,
    pub converts: Vec<Convert>,
    pub delete: bool,
}

/// The options of the `unzip` command: the EPUB file, and whether it is
/// deleted afterwards.
pub struct Unzip {
    pub epub_path: String,
    pub delete: bool,
}

/// The options of the `zip` command: the directory of an unpacked EPUB, and
/// whether it is deleted afterwards.
pub struct Zip {
    pub epub_dir_path: String,
    pub delete: bool,
}

} // verus!
