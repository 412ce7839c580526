use vstd::prelude::*;

use crate::level::{is_level_id, level_id_of, level_id_spec, level_label, level_label_spec};

verus! {

/// How a request restricts the questions beside the level.
#[derive(PartialEq, Eq, Structural, Clone, Copy, Debug)]
pub enum Mode {
    /// By chapter number.
    Chapter,
    /// By an inclusive range of entry ids.
    Range,
}

/// An inclusive range of entry ids.
#[derive(PartialEq, Eq, Structural, Clone, Copy, Debug)]
pub struct EntryRange {
    pub start: i32,
    pub end: i32,
}

/// A selection request as the caller wrote it: every field may be missing.
pub struct SelectionRequest {
    pub level: Option<String>,
    pub mode: Option<String>,
    pub chapters: Vec<i32>,
    pub range: Option<EntryRange>,
    pub num_questions: Option<i64>,
}

/// A validated selection request.
pub struct SelectionSpec {
    /// The level filter, absent when the label was missing or unknown.
    pub level_id: Option<i32>,
    /// The label that names the level in a test's title.
    pub level_label: String,
    pub mode: Mode,
    /// The chapter filter: present only in chapter mode with chapters given.
    pub chapters: Option<Vec<i32>>,
    /// The entry-id filter: present only in range mode with a range given.
    pub range: Option<EntryRange>,
    /// How many questions to keep at most.
    pub limit: Option<u64>,
}

impl SelectionSpec {
    /// The level id names a tier and a limit, when given, is positive.
    pub open spec fn wf(&self) -> bool {
        &&& self.level_id matches Some(id) ==> is_level_id(id as int)
        &&& self.limit matches Some(n) ==> n > 0
    }
}

/// The label used when a request names no known level.
pub open spec fn default_label() -> Seq<char> {
    seq!['n', '4']
}

pub open spec fn requested_level(level: Option<String>) -> Option<int> {
    match level {
        Some(l) => level_id_spec(l@),
        None => None,
    }
}

pub open spec fn requested_mode(mode: Option<String>) -> Mode {
    match mode {
        Some(m) => if m@ == seq!['r', 'a', 'n', 'g', 'e'] {
            Mode::Range
        } else {
            Mode::Chapter
        },
        None => Mode::Chapter,
    }
}

pub open spec fn requested_limit(n: Option<i64>) -> Option<u64> {
    match n {
        Some(k) => if k > 0 {
            Some(k as u64)
        } else {
            None
        },
        None => None,
    }
}

/// Turns a raw request into a selection spec. Nothing is rejected: an unknown
/// level means no level filter, an unknown mode means chapter mode, an empty
/// chapter list means no chapter filter, and a count that is not positive
/// means no limit.
pub fn normalize(req: SelectionRequest) -> (r: SelectionSpec)
    ensures
        r.wf(),
        r.level_id matches Some(id) ==> requested_level(req.level) == Some(id as int),
        r.level_id is None ==> requested_level(req.level) is None,
        r.level_label@ == (match r.level_id {
            Some(id) => level_label_spec(id as int),
            None => default_label(),
        }),
        r.mode == requested_mode(req.mode),
        r.chapters == (if r.mode == Mode::Chapter && req.chapters@.len() > 0 {
            Some(req.chapters)
        } else {
            None
        }),
        r.range == (if r.mode == Mode::Range {
            req.range
        } else {
            None
        }),
        r.limit == requested_limit(req.num_questions),
{
    let level_id = match &req.level {
        Some(l) => level_id_of(l),
        None => None,
    };
    let level_label = match level_id {
        Some(id) => level_label(id),
        None => {
            proof {
                reveal_strlit("n4");
                assert("n4"@ =~= default_label());
            }
            String::from_str("n4")
        },
    };
    let mode = match &req.mode {
        Some(m) => {
            proof {
                reveal_strlit("range");
                assert("range"@ =~= seq!['r', 'a', 'n', 'g', 'e']);
            }
            if *m == String::from_str("range") {
                Mode::Range
            } else {
                Mode::Chapter
            }
        },
        None => Mode::Chapter,
    };
    let chapters = if mode == Mode::Chapter && req.chapters.len() > 0 {
        Some(req.chapters)
    } else {
        None
    };
    let range = if mode == Mode::Range {
        req.range
    } else {
        None
    };
    let limit = match req.num_questions {
        Some(k) => if k > 0 {
            Some(k as u64)
        } else {
            None
        },
        None => None,
    };
    SelectionSpec { level_id, level_label, mode, chapters, range, limit }
}

} // verus!
