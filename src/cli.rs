use vstd::prelude::*;

verus! {

/// A parsed command line.
#[derive(Debug)]
pub struct Cli {
    pub command: Commands,
}

/// The commands of the tool.
#[derive(Debug)]
#[allow(inconsistent_fields)]
pub enum Commands {
    /// Ingest source files into a destination directory.
    Add {
        /// Source patterns.
        source: Vec<String>,
        /// Destination directory; the working directory when absent.
        destination: Option<String>,
        /// Process at most this many regular files.
        take: Option<usize>,
    },
    /// Report drift between a directory and its catalog.
    Update {
        path: String,
        /// Hash the files again.
        verify: bool,
    },
    /// Search the catalog.
    Grep {
        /// Text to search for.
        target: String,
        /// Directory of the catalog; the working directory when absent.
        path: Option<String>,
    },
    /// Check that the catalog of a directory opens.
    OpenTest {
        path: String,
    },
    /// Create the catalog of a directory.
    Init {
        path: String,
        /// Protect the catalog with a passphrase.
        encrypt: bool,
    },
}

} // verus!
