pub mod media;
pub mod timeline;
pub mod sqlize;
pub mod records;
