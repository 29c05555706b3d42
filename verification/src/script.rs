//! Deployable script files and the messages handed to a script handler.

use vstd::prelude::*;

verus! {

/// What a handler learns about the inbound request.
#[derive(Clone)]
pub struct RequestInfo {
    /// The route path that matched.
    pub path: String,
}

/// One script-execution request for a handler: the request info, the
/// script source bytes, and the file name for diagnostics.
pub struct ScriptMessage {
    pub request: RequestInfo,
    pub source: Vec<u8>,
    pub file: String,
}

/// An engine-specific script executor.
pub trait ScriptHandler {
    /// The form the script source takes.
    type SourceType;
    /// The value an execution yields.
    type ValueType;

    /// Runs one script.
    fn exec(&mut self, source: Self::SourceType, file_name: String) -> Self::ValueType;
}

/// The largest index of `c` in `s`, or -1 when `c` does not occur.
pub open spec fn last_index_of(s: Seq<char>, c: char) -> int
    decreases s.len(),
{
    if s.len() == 0 {
        -1
    } else if s[s.len() - 1] == c {
        s.len() - 1
    } else {
        last_index_of(s.drop_last(), c)
    }
}

proof fn lemma_last_index_of(s: Seq<char>, c: char)
    ensures
        -1 <= last_index_of(s, c) < s.len(),
        last_index_of(s, c) >= 0 ==> s[last_index_of(s, c)] == c,
        forall|j: int| last_index_of(s, c) < j < s.len() ==> s[j] != c,
    decreases s.len(),
{
    if s.len() > 0 && s[s.len() - 1] != c {
        lemma_last_index_of(s.drop_last(), c);
        assert forall|j: int| last_index_of(s, c) < j < s.len() implies s[j] != c by {
            if j < s.len() - 1 {
                assert(s.drop_last()[j] == s[j]);
            }
        }
        if last_index_of(s, c) >= 0 {
            assert(s.drop_last()[last_index_of(s, c)] == s[last_index_of(s, c)]);
        }
    }
}

/// The file-name part of a path: everything after the last `/`.
pub open spec fn spec_file_name(p: Seq<char>) -> Seq<char> {
    p.subrange(last_index_of(p, '/') + 1, p.len() as int)
}

/// The stem of a file name: the whole name when it holds no `.` beyond
/// its first character, else the part before the last `.`.
pub open spec fn spec_file_stem(name: Seq<char>) -> Seq<char> {
    let dot = last_index_of(name, '.');
    if dot >= 1 {
        name.subrange(0, dot)
    } else {
        name
    }
}

/// Finds the last occurrence of `c` among the characters of `s`, if any.
fn find_last(s: &str, c: char) -> (r: Option<usize>)
    ensures
        match r {
            Some(i) => i == last_index_of(s@, c),
            None => last_index_of(s@, c) == -1,
        },
{
    proof {
        lemma_last_index_of(s@, c);
    }
    let len = s.unicode_len();
    let mut i: usize = len;
    while i > 0
        invariant
            0 <= i <= len,
            len == s@.len(),
            forall|j: int| i <= j < len ==> s@[j] != c,
        decreases i,
    {
        i = i - 1;
        if s.get_char(i) == c {
            proof {
                if last_index_of(s@, c) != i {
                    lemma_last_index_of(s@, c);
                }
            }
            return Some(i);
        }
    }
    proof {
        lemma_last_index_of(s@, c);
    }
    None
}

/// One deployable script: its path and the declared script type.
#[derive(Clone)]
pub struct ScriptFile {
    pub file_path: String,
    pub script_type: String,
}

impl ScriptFile {
    /// The route under which the file is served: the stem of its file
    /// name.
    pub fn route_path(&self) -> (r: String)
        ensures
            r@ == spec_file_stem(spec_file_name(self.file_path@)),
    {
        proof {
            lemma_last_index_of(self.file_path@, '/');
        }
        let len = self.file_path.as_str().unicode_len();
        let start: usize = match find_last(self.file_path.as_str(), '/') {
            Some(i) => i + 1,
            None => 0,
        };
        let name = self.file_path.as_str().substring_char(start, len);
        proof {
            assert(name@ == spec_file_name(self.file_path@));
            lemma_last_index_of(name@, '.');
        }
        match find_last(name, '.') {
            Some(dot) if dot >= 1 => {
                let stem = name.substring_char(0, dot);
                stem.to_owned()
            },
            _ => name.to_owned(),
        }
    }

    /// The file name used for diagnostics: the full path.
    pub fn get_file_name(&self) -> (r: String)
        ensures
            r@ == self.file_path@,
    {
        self.file_path.clone()
    }
}

} // verus!
