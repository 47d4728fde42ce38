//! Records of generated output: a file written from another, or a block
//! generated inline.

use vstd::prelude::*;

use crate::diagnostics::{decimal, push_decimal};

verus! {

/// Where generated code went.
pub enum GenerationKind {
    File { output_file: String },
    Inline { line: usize },
}

/// A piece of generated code and the file it came from.
pub struct Generation {
    pub source_file: String,
    pub kind: GenerationKind,
}

/// The mathematical value of where generated code went.
pub enum GenerationKindView {
    File { output_file: Seq<char> },
    Inline { line: usize },
}

/// The mathematical value of a generation.
pub struct GenerationView {
    pub source_file: Seq<char>,
    pub kind: GenerationKindView,
}

impl View for Generation {
    type V = GenerationView;

    open spec fn view(&self) -> GenerationView {
        GenerationView {
            source_file: self.source_file@,
            kind: match self.kind {
                GenerationKind::File { output_file } => GenerationKindView::File { output_file: output_file@ },
                GenerationKind::Inline { line } => GenerationKindView::Inline { line },
            },
        }
    }
}

/// The views of a sequence of generations.
pub open spec fn generation_views(gs: Seq<Generation>) -> Seq<GenerationView> {
    gs.map_values(|g: Generation| g@)
}

/// How a generation prints.
pub open spec fn generation_text(source_file: Seq<char>, kind: GenerationKind) -> Seq<char> {
    match kind {
        GenerationKind::File { output_file } => source_file + " -> "@ + output_file@,
        GenerationKind::Inline { line } => source_file + ":"@ + decimal(line as nat)
            + ": generated inline block"@,
    }
}

impl Generation {
    /// A file generated from `source_file` into `output_file`.
    pub fn file(source_file: &str, output_file: &str) -> (g: Self)
        ensures
            g.source_file@ == source_file@,
            g.kind matches GenerationKind::File { output_file: o } && o@ == output_file@,
    {
        Generation {
            source_file: source_file.to_string(),
            kind: GenerationKind::File { output_file: output_file.to_string() },
        }
    }

    /// A block generated inline in `source_file` at `line`.
    pub fn inline(source_file: &str, line: usize) -> (g: Self)
        ensures
            g.source_file@ == source_file@,
            g.kind == (GenerationKind::Inline { line }),
    {
        Generation { source_file: source_file.to_string(), kind: GenerationKind::Inline { line } }
    }

    /// The generation as it prints: `source -> output`, or
    /// `source:line: generated inline block`.
    pub fn to_display_string(&self) -> (s: String)
        ensures
            s@ == generation_text(self.source_file@, self.kind),
    {
        let mut s = self.source_file.clone();
        match &self.kind {
            GenerationKind::File { output_file } => {
                s.append(" -> ");
                s.append(output_file.as_str());
            },
            GenerationKind::Inline { line } => {
                s.append(":");
                push_decimal(&mut s, *line);
                s.append(": generated inline block");
            },
        }
        s
    }
}

} // verus!
