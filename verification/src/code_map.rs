//! The sources of a story: for each file its name, its text and where its
//! lines lie.
use crate::context::ByteRange;
use vstd::prelude::*;

verus! {

/// Line starts are valid when there is a first line, it starts at offset 0,
/// and each further line starts behind the one before.
pub open spec fn valid_line_starts(starts: Seq<usize>) -> bool {
    &&& starts.len() > 0
    &&& starts[0] == 0
    &&& forall|i: int, j: int| 0 <= i < j < starts.len() ==> starts[i] < starts[j]
}

/// Line `line` holds the byte at `offset`: it is the last line that starts
/// at or before it.
pub open spec fn line_holds(starts: Seq<usize>, line: int, offset: usize) -> bool {
    &&& 0 <= line < starts.len()
    &&& starts[line] <= offset
    &&& forall|later: int| line < later < starts.len() ==> offset < #[trigger] starts[later]
}

/// A byte lies in one line only, and every byte lies in one: among valid
/// line starts, exactly one line holds a given offset.
pub proof fn lemma_one_line_holds(starts: Seq<usize>, offset: usize)
    requires
        valid_line_starts(starts),
    ensures
        exists|line: int| line_holds(starts, line, offset),
        forall|one: int, other: int|
            line_holds(starts, one, offset) && line_holds(starts, other, offset) ==> one == other,
{
    lemma_some_line_holds(starts, offset, starts.len() - 1);
}

/// Some line up to `upto` holds the offset, where no line behind `upto`
/// starts at or before it.
proof fn lemma_some_line_holds(starts: Seq<usize>, offset: usize, upto: int)
    requires
        valid_line_starts(starts),
        0 <= upto < starts.len(),
        forall|later: int| upto < later < starts.len() ==> offset < #[trigger] starts[later],
    ensures
        exists|line: int| line_holds(starts, line, offset),
    decreases upto,
{
    if starts[upto] <= offset {
        assert(line_holds(starts, upto, offset));
    } else {
        lemma_some_line_holds(starts, offset, upto - 1);
    }
}

/// One source file.
pub struct SourceFile {
    name: Option<String>,
    source: String,
    line_starts: Vec<usize>,
    line_ranges: Vec<ByteRange>,
}

impl SourceFile {
    #[verifier::type_invariant]
    spec fn starts_are_valid(self) -> bool {
        valid_line_starts(self.line_starts@)
    }

    /// The name of the file, if it has one.
    pub closed spec fn name(self) -> Option<String> {
        self.name
    }

    /// The text of the file.
    pub closed spec fn source(self) -> String {
        self.source
    }

    /// The byte offset at which each line starts.
    pub closed spec fn line_starts(self) -> Seq<usize> {
        self.line_starts@
    }

    /// The bytes that each line covers.
    pub closed spec fn line_ranges(self) -> Seq<ByteRange> {
        self.line_ranges@
    }

    /// A source file of the given name, text and lines. There is none where
    /// the line starts are not valid.
    pub fn new(
        name: Option<String>,
        source: String,
        line_starts: Vec<usize>,
        line_ranges: Vec<ByteRange>,
    ) -> (file: Option<SourceFile>)
        ensures
            file is Some <==> valid_line_starts(line_starts@),
            file matches Some(f) ==> f.name() == name && f.source() == source && f.line_starts()
                == line_starts@ && f.line_ranges() == line_ranges@,
    {
        if line_starts.len() == 0 || line_starts[0] != 0 {
            return None;
        }
        let mut at: usize = 1;
        while at < line_starts.len()
            invariant
                1 <= at <= line_starts.len(),
                line_starts@[0] == 0,
                forall|i: int, j: int| 0 <= i < j < at ==> line_starts@[i] < line_starts@[j],
            decreases line_starts.len() - at,
        {
            if line_starts[at - 1] >= line_starts[at] {
                return None;
            }
            at += 1;
        }
        Some(SourceFile { name, source, line_starts, line_ranges })
    }

    /// The name of the file.
    pub fn get_name(&self) -> (name: Option<&String>)
        ensures
            match name {
                Some(name) => self.name() == Some(*name),
                None => self.name() is None,
            },
    {
        self.name.as_ref()
    }

    /// The text of the file.
    pub fn get_source(&self) -> (source: &String)
        ensures
            *source == self.source(),
    {
        &self.source
    }

    /// The index of the line that holds the byte at `offset`.
    pub fn line_at(&self, offset: usize) -> (line: usize)
        ensures
            line_holds(self.line_starts(), line as int, offset),
    {
        proof {
            use_type_invariant(self);
        }
        let starts = &self.line_starts;
        let mut low: usize = 0;
        let mut high: usize = starts.len();
        while high - low > 1
            invariant
                valid_line_starts(starts@),
                low < high <= starts.len(),
                starts@[low as int] <= offset,
                forall|later: int| high <= later < starts.len() ==> offset < #[trigger] starts@[later],
            decreases high - low,
        {
            let middle = low + (high - low) / 2;
            if starts[middle] <= offset {
                low = middle;
            } else {
                high = middle;
            }
        }
        low
    }

    /// The bytes of the line of index `line`.
    pub fn line_span(&self, line: usize) -> (span: Option<ByteRange>)
        ensures
            span == if line < self.line_ranges().len() {
                Some(self.line_ranges()[line as int])
            } else {
                None
            },
    {
        if line < self.line_ranges.len() {
            Some(self.line_ranges[line])
        } else {
            None
        }
    }
}

/// The source files of a story. A file's id is its index.
pub struct CodeMap {
    /// The files, each at the index that is its id.
    pub files: Vec<SourceFile>,
}

impl CodeMap {
    /// The file of id `id` is named `name`.
    pub open spec fn names(self, id: int, name: Seq<char>) -> bool {
        &&& 0 <= id < self.files@.len()
        &&& self.files@[id].name() matches Some(given)
        &&& given@ == name
    }

    /// The id of the first file named `name`, from id `from` on.
    pub open spec fn id_from(self, name: Seq<char>, from: int) -> Option<usize>
        decreases self.files@.len() - from,
    {
        if from < 0 || from >= self.files@.len() {
            None
        } else if self.names(from, name) {
            Some(from as usize)
        } else {
            self.id_from(name, from + 1)
        }
    }

    /// The id that `name` resolves to: that of the first file of that name.
    pub open spec fn id_of(self, name: Seq<char>) -> Option<usize> {
        self.id_from(name, 0)
    }

    /// The id of the file named `name`.
    pub fn lookup_id(&self, name: &String) -> (id: Option<usize>)
        ensures
            id == self.id_of(name@),
            match id {
                Some(id) => self.names(id as int, name@) && forall|earlier: int|
                    0 <= earlier < id ==> !self.names(earlier, name@),
                None => forall|any: int| !self.names(any, name@),
            },
    {
        let mut at: usize = 0;
        while at < self.files.len()
            invariant
                at <= self.files.len(),
                forall|earlier: int| 0 <= earlier < at ==> !self.names(earlier, name@),
                self.id_of(name@) == self.id_from(name@, at as int),
            decreases self.files.len() - at,
        {
            let found = match self.files[at].get_name() {
                Some(given) => *given == *name,
                None => false,
            };
            if found {
                return Some(at);
            }
            at += 1;
        }
        None
    }

    /// The name of the file of id `id`.
    pub fn lookup_name(&self, id: usize) -> (name: Option<&String>)
        ensures
            match name {
                Some(name) => id < self.files@.len() && self.files@[id as int].name() == Some(
                    *name,
                ),
                None => id >= self.files@.len() || self.files@[id as int].name() is None,
            },
    {
        if id < self.files.len() {
            self.files[id].get_name()
        } else {
            None
        }
    }

    /// The file of id `id`.
    pub fn get_file(&self, id: usize) -> (file: Option<&SourceFile>)
        ensures
            match file {
                Some(file) => id < self.files@.len() && *file == self.files@[id as int],
                None => id >= self.files@.len(),
            },
    {
        if id < self.files.len() {
            Some(&self.files[id])
        } else {
            None
        }
    }

    /// The bytes of line `line` of the file of id `id`, lines counted from 1.
    pub fn line_range(&self, id: usize, line: usize) -> (range: Option<ByteRange>)
        ensures
            range == self.range_of_line(id, line),
    {
        if id < self.files.len() && line >= 1 {
            self.files[id].line_span(line - 1)
        } else {
            None
        }
    }

    /// The bytes of line `line` of the file of id `id`, lines counted from 1;
    /// `None` where there is no such file or line.
    pub open spec fn range_of_line(self, id: usize, line: usize) -> Option<ByteRange> {
        if id < self.files@.len() && 1 <= line <= self.files@[id as int].line_ranges().len() {
            Some(self.files@[id as int].line_ranges()[line - 1])
        } else {
            None
        }
    }
}

} // verus!
