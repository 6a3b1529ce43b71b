//! The format paths of the configuration file, in which a `$` and a name
//! stand for a directory.
use vstd::prelude::*;
use vstd::string::StringSliceAdditionalSpecFns;

verus! {

/// A place that a format path of the configuration file can name with a
/// `$`.
#[derive(Debug, Clone, Copy, PartialEq, Eq, Structural)]
pub enum PathVariable {
    /// `$HOME`: the home directory of the user.
    Home,
    /// `$PWD`: the directory the program was started in.
    Pwd,
    /// `$TWEEC_BIN_DIR`: the directory that holds the program.
    BinDir,
    /// `$TWEEC_DATA_DIR`: the data directory of the system.
    DataDir,
}

/// The place that `name` stands for. Other names, those of the environment
/// among them, stand for nothing.
pub open spec fn variable_named(name: Seq<char>) -> Option<PathVariable> {
    if name == "HOME"@ {
        Some(PathVariable::Home)
    } else if name == "PWD"@ {
        Some(PathVariable::Pwd)
    } else if name == "TWEEC_BIN_DIR"@ {
        Some(PathVariable::BinDir)
    } else if name == "TWEEC_DATA_DIR"@ {
        Some(PathVariable::DataDir)
    } else {
        None
    }
}

impl PathVariable {
    /// The place that `name` stands for, if it stands for one.
    pub fn from_name(name: &String) -> (variable: Option<PathVariable>)
        ensures
            variable == variable_named(name@),
    {
        if *name == "HOME".to_owned() {
            Some(PathVariable::Home)
        } else if *name == "PWD".to_owned() {
            Some(PathVariable::Pwd)
        } else if *name == "TWEEC_BIN_DIR".to_owned() {
            Some(PathVariable::BinDir)
        } else if *name == "TWEEC_DATA_DIR".to_owned() {
            Some(PathVariable::DataDir)
        } else {
            None
        }
    }

    /// What to tell the user about a name that stands for nothing.
    pub fn unsupported() -> (message: String)
        ensures
            message@ == "Arbitrary environment variables are not currently supported"@,
    {
        "Arbitrary environment variables are not currently supported".to_owned()
    }
}

/// The byte `$`.
pub const DOLLAR: u8 = 0x24;

/// The byte `/`.
pub const SLASH: u8 = 0x2F;

/// The first offset at or behind `from` at which `byte` stands.
pub open spec fn byte_from(bytes: Seq<u8>, byte: u8, from: int) -> Option<int>
    decreases bytes.len() - from,
{
    if from < 0 || from >= bytes.len() {
        None
    } else if bytes[from] == byte {
        Some(from)
    } else {
        byte_from(bytes, byte, from + 1)
    }
}

/// Where the first variable of a path starts and ends, in bytes.
///
/// It starts at the first `$`. Where a `/` follows, it ends at the offset
/// that the first such `/` has counted from the `$`; else it ends with the
/// path. So a variable that a `/` follows is cut out whole only where it
/// leads the path.
pub open spec fn variable_span(bytes: Seq<u8>) -> Option<(int, int)> {
    match byte_from(bytes, DOLLAR, 0) {
        Some(start) => match byte_from(bytes, SLASH, start) {
            Some(slash) => Some((start, slash - start)),
            None => Some((start, bytes.len() as int)),
        },
        None => None,
    }
}

/// The first offset at or behind `from` at which `byte` stands.
pub fn find_byte(bytes: &[u8], byte: u8, from: usize) -> (found: Option<usize>)
    ensures
        match found {
            Some(at) => byte_from(bytes@, byte, from as int) == Some(at as int) && from <= at
                < bytes@.len(),
            None => byte_from(bytes@, byte, from as int) is None,
        },
{
    let mut at: usize = from;
    while at < bytes.len()
        invariant
            from <= at,
            byte_from(bytes@, byte, from as int) == byte_from(bytes@, byte, at as int),
        decreases bytes.len() - at,
    {
        if bytes[at] == byte {
            return Some(at);
        }
        at += 1;
    }
    None
}

/// Where the first variable of a path starts and ends, in bytes.
pub fn find_variable(path: &str) -> (span: Option<(usize, usize)>)
    ensures
        match span {
            Some((start, end)) => variable_span(path.spec_bytes()) == Some(
                (start as int, end as int),
            ),
            None => variable_span(path.spec_bytes()) is None,
        },
{
    let bytes = path.as_bytes();
    match find_byte(bytes, DOLLAR, 0) {
        Some(start) => match find_byte(bytes, SLASH, start) {
            Some(slash) => Some((start, slash - start)),
            None => Some((start, bytes.len())),
        },
        None => None,
    }
}

/// The bytes from `start` up to `end` can be cut out of a text: they lie in
/// it, and both offsets lie between characters.
pub open spec fn can_cut(bytes: Seq<u8>, start: int, end: int) -> bool {
    &&& 0 <= start <= end <= bytes.len()
    &&& vstd::utf8::is_char_boundary(bytes, start)
    &&& vstd::utf8::is_char_boundary(bytes.subrange(start, bytes.len() as int), end - start)
}

/// The part of `text` from byte `start` up to byte `end`; none where it
/// cannot be cut out.
pub fn cut(text: &str, start: usize, end: usize) -> (part: Option<&str>)
    ensures
        match part {
            Some(part) => can_cut(text.spec_bytes(), start as int, end as int)
                && part.spec_bytes() == text.spec_bytes().subrange(start as int, end as int),
            None => !can_cut(text.spec_bytes(), start as int, end as int),
        },
{
    if start > end || end > text.as_bytes().len() || !text.is_char_boundary(start) {
        return None;
    }
    let (_, tail) = text.split_at(start);
    if !tail.is_char_boundary(end - start) {
        return None;
    }
    let (part, _) = tail.split_at(end - start);
    assert(part.spec_bytes() =~= text.spec_bytes().subrange(start as int, end as int));
    Some(part)
}

} // verus!
