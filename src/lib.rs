//! Renders pages of a PDF document to raster images through poppler's command-line tools.
//!
//! The library holds the verified logic: the rendering options and the arguments they
//! become, the page selection, the reading of `pdfinfo`'s report, the executable paths,
//! the per-page argument lists of a render and the order-keeping join of the decoded pages.
//! Spawning the tools is left to the caller, who hands the library plain bytes.
mod error;
mod info;
mod options;
mod pages;
mod pdf;

pub use error::PDF2ImageError;
pub use info::{encryption_of_words, extract_pdf_info, info_spec, page_count_of_words, InfoOutcome};
pub use options::{cli_args_spec, decimal, Crop, Password, RenderOptions, Scale, DPI};
pub use pages::{lemma_range_resolution, resolve_spec, span, Pages};
pub use pdf::{
    collect_rendered, collect_spec, decode_page, get_executable_path, lemma_collect_keeps_order,
    lemma_first_failure_wins, lemma_single_failure_wins, page_args_spec, tool_name,
    PDF,
};
