//! Where downloads are saved, and the notice shown when one completes.

use vstd::prelude::*;
use crate::paths::{path_join, spec_path_join};
use crate::text::push_str;

verus! {

/// Downloads are saved without a dialog as `<download_dir>/<file name>`.
pub fn download_save_path(download_dir: &str, file_name: &str) -> (r: String)
    ensures
        r@ == spec_path_join(download_dir@, file_name@),
{
    path_join(download_dir, file_name)
}

/// `<file name> saved to <download_dir>`
pub fn download_complete_body(file_name: &str, download_dir: &str) -> (r: String)
    ensures
        r@ == file_name@ + " saved to "@ + download_dir@,
{
    let mut r = String::new();
    push_str(&mut r, file_name);
    push_str(&mut r, " saved to ");
    push_str(&mut r, download_dir);
    r
}

} // verus!
