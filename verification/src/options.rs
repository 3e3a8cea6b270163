//! What the tool is asked to do.

use vstd::prelude::*;

verus! {

/// The settings of one run.
#[derive(Debug)]
pub struct Options {
    /// URI of the REST catalog.
    pub catalog_uri: String,
    /// URI of the warehouse.
    pub warehouse: String,
    /// S3 endpoint.
    pub s3_endpoint: Option<String>,
    /// S3 region.
    pub s3_region: Option<String>,
    /// S3 access key ID.
    pub s3_access_key_id: Option<String>,
    /// S3 secret access key.
    pub s3_secret_access_key: Option<String>,
    /// Whether buckets are addressed by path instead of by host.
    pub s3_path_style: bool,
    /// Dotted identifier of the table.
    pub table_id: String,
    /// The file with the list of paths, as it is shown.
    pub paths_file: String,
    /// Whether files that are registered already go unnoticed.
    pub skip_duplicate_check: bool,
}

/// What [`Options`] stand for.
#[verifier::ext_equal]
pub struct OptionsView {
    pub catalog_uri: Seq<char>,
    pub warehouse: Seq<char>,
    pub s3_endpoint: Option<Seq<char>>,
    pub s3_region: Option<Seq<char>>,
    pub s3_access_key_id: Option<Seq<char>>,
    pub s3_secret_access_key: Option<Seq<char>>,
    pub s3_path_style: bool,
    pub table_id: Seq<char>,
    pub paths_file: Seq<char>,
    pub skip_duplicate_check: bool,
}

impl View for Options {
    type V = OptionsView;

    open spec fn view(&self) -> OptionsView {
        OptionsView {
            catalog_uri: self.catalog_uri@,
            warehouse: self.warehouse@,
            s3_endpoint: self.s3_endpoint.deep_view(),
            s3_region: self.s3_region.deep_view(),
            s3_access_key_id: self.s3_access_key_id.deep_view(),
            s3_secret_access_key: self.s3_secret_access_key.deep_view(),
            s3_path_style: self.s3_path_style,
            table_id: self.table_id@,
            paths_file: self.paths_file@,
            skip_duplicate_check: self.skip_duplicate_check,
        }
    }
}

} // verus!
