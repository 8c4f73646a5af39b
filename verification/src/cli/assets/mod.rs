//! What a document depends on: the references in it, and the files that they name.
pub mod collection;
pub mod coverage;
pub mod css;
pub mod html;
pub mod markdown;
pub mod reference;
pub mod scanning;
pub mod soundness;
