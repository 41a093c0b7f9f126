//! The models behind the Epic Asset Manager's pages, verified with Verus:
//! list rows that carry JSON and a thumbnail, the download details of an
//! asset's releases, the library sidebar's categories and the projects
//! page with its project scan decisions.
pub mod text;
pub mod hex_text;
pub mod row_data;
pub mod release;
pub mod download_detail;
pub mod projects;
pub mod sidebar_category;
