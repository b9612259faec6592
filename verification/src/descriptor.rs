//! Package descriptors: the text files of a package index, one per package.
//!
//! A descriptor is a sequence of lines. A line that starts and ends with `%`
//! is a header and opens a field; the first non-empty line after a header is
//! the field's value. Of all fields only `%NAME%`, `%BASE%` and `%VERSION%`
//! are kept. A field that is not there is left empty; one that is opened more
//! than once keeps the value that was given last.
//!
//! Lines end at a line feed; a carriage return before the line feed belongs
//! to the end of the line.

use vstd::prelude::*;
use crate::text::{chars_of, spells};

verus! {

/// What a snapshot holds of one package.
#[derive(Clone, Debug, PartialEq, Eq)]
pub struct Package {
    /// The name of the built package: its identity.
    pub name: String,
    /// The source package that it was built from.
    pub base: String,
    /// The version that the index offers.
    pub version: String,
}

/// A package as the contracts see it.
pub struct PackageView {
    pub name: Seq<char>,
    pub base: Seq<char>,
    pub version: Seq<char>,
}

impl View for Package {
    type V = PackageView;

    open spec fn view(&self) -> PackageView {
        PackageView { name: self.name@, base: self.base@, version: self.version@ }
    }
}

/// The packages of a snapshot as the contracts see them.
pub open spec fn package_views(packages: Seq<Package>) -> Seq<PackageView> {
    packages.map_values(|p: Package| p@)
}

/// The fields that a header can open.
pub enum Field {
    Name,
    Base,
    Version,
    /// Any field that is not kept.
    Other,
}

impl PackageView {
    /// The package of an empty descriptor.
    pub open spec fn blank() -> PackageView {
        PackageView { name: Seq::empty(), base: Seq::empty(), version: Seq::empty() }
    }

    /// The package with `value` in the given field.
    pub open spec fn with_field(self, field: Field, value: Seq<char>) -> PackageView {
        match field {
            Field::Name => PackageView { name: value, ..self },
            Field::Base => PackageView { base: value, ..self },
            Field::Version => PackageView { version: value, ..self },
            Field::Other => self,
        }
    }
}

/// Where the line that starts at `pos` ends: at the next line feed, or at
/// the end of the text.
pub open spec fn line_end(text: Seq<char>, pos: int) -> int
    decreases text.len() - pos,
{
    if pos < 0 || pos >= text.len() {
        text.len() as int
    } else if text[pos] == '\n' {
        pos
    } else {
        line_end(text, pos + 1)
    }
}

/// The line that starts at `pos`, without its line feed and without a
/// carriage return before that line feed.
pub open spec fn line_at(text: Seq<char>, pos: int) -> Seq<char> {
    let end = line_end(text, pos);
    let raw = text.subrange(pos, end);
    if end < text.len() && raw.len() > 0 && raw.last() == '\r' {
        raw.drop_last()
    } else {
        raw
    }
}

/// The lines of `text` from `pos` on.
pub open spec fn lines_from(text: Seq<char>, pos: int) -> Seq<Seq<char>>
    decreases text.len() + 1 - pos,
{
    if pos < 0 || pos >= text.len() {
        Seq::empty()
    } else {
        proof {
            lemma_line_end_bounds(text, pos);
        }
        seq![line_at(text, pos)] + lines_from(text, line_end(text, pos) + 1)
    }
}

/// The lines of `text`.
pub open spec fn lines(text: Seq<char>) -> Seq<Seq<char>> {
    lines_from(text, 0)
}

/// The end of a line lies between its start and the end of the text, and no
/// line feed stands before it.
pub proof fn lemma_line_end_bounds(text: Seq<char>, pos: int)
    requires
        0 <= pos <= text.len(),
    ensures
        pos <= line_end(text, pos) <= text.len(),
        line_end(text, pos) < text.len() ==> text[line_end(text, pos)] == '\n',
        forall|i: int| pos <= i < line_end(text, pos) ==> text[i] != '\n',
    decreases text.len() - pos,
{
    if pos < text.len() && text[pos] != '\n' {
        lemma_line_end_bounds(text, pos + 1);
    }
}

/// A line that opens a field.
pub open spec fn is_header(line: Seq<char>) -> bool {
    line.len() > 0 && line[0] == '%' && line.last() == '%'
}

/// The field that a header opens.
pub open spec fn field_of(line: Seq<char>) -> Field {
    if line == "%NAME%"@ {
        Field::Name
    } else if line == "%BASE%"@ {
        Field::Base
    } else if line == "%VERSION%"@ {
        Field::Version
    } else {
        Field::Other
    }
}

/// How far a descriptor has been read.
pub struct Scan {
    /// The field that was opened last.
    pub field: Field,
    /// No value has been seen since that field was opened.
    pub awaiting: bool,
    /// What has been found so far.
    pub found: PackageView,
}

impl Scan {
    /// Before the first line.
    pub open spec fn start() -> Scan {
        Scan { field: Field::Other, awaiting: false, found: PackageView::blank() }
    }

    /// After one more line.
    pub open spec fn step(self, line: Seq<char>) -> Scan {
        if is_header(line) {
            Scan { field: field_of(line), awaiting: true, found: self.found }
        } else if line.len() > 0 && self.awaiting {
            Scan {
                field: self.field,
                awaiting: false,
                found: self.found.with_field(self.field, line),
            }
        } else {
            self
        }
    }

    /// After all of `lines`.
    pub open spec fn absorb(self, lines: Seq<Seq<char>>) -> Scan
        decreases lines.len(),
    {
        if lines.len() == 0 {
            self
        } else {
            self.step(lines[0]).absorb(lines.drop_first())
        }
    }
}

/// The package that a descriptor describes.
pub open spec fn parsed(text: Seq<char>) -> PackageView {
    Scan::start().absorb(lines(text)).found
}

/// The field that the header from `from` up to `to` opens.
fn header_field(chars: &Vec<char>, from: usize, to: usize) -> (r: Field)
    requires
        from <= to <= chars.len(),
    ensures
        r == field_of(chars@.subrange(from as int, to as int)),
{
    if spells(chars, from, to, "%NAME%") {
        Field::Name
    } else if spells(chars, from, to, "%BASE%") {
        Field::Base
    } else if spells(chars, from, to, "%VERSION%") {
        Field::Version
    } else {
        Field::Other
    }
}

/// Reads a descriptor. Nothing makes a descriptor invalid: what cannot be
/// found is left empty.
pub fn parse_desc(text: &str) -> (package: Package)
    ensures
        package@ == parsed(text@),
{
    let chars = chars_of(text);
    let n = chars.len();
    let mut field = Field::Other;
    let mut awaiting = false;
    let mut name: (usize, usize) = (0, 0);
    let mut base: (usize, usize) = (0, 0);
    let mut version: (usize, usize) = (0, 0);
    let mut pos: usize = 0;
    let ghost mut scan = Scan::start();
    assert(text@.subrange(0, 0) =~= Seq::<char>::empty());
    while pos < n
        invariant
            chars@ == text@,
            n == chars.len(),
            pos <= n,
            scan.field == field,
            scan.awaiting == awaiting,
            name.0 <= name.1 <= n,
            base.0 <= base.1 <= n,
            version.0 <= version.1 <= n,
            scan.found.name == text@.subrange(name.0 as int, name.1 as int),
            scan.found.base == text@.subrange(base.0 as int, base.1 as int),
            scan.found.version == text@.subrange(version.0 as int, version.1 as int),
            scan.absorb(lines_from(text@, pos as int)) == Scan::start().absorb(lines(text@)),
        decreases n - pos,
    {
        let mut end = pos;
        while end < n && chars[end] != '\n'
            invariant
                chars@ == text@,
                n == chars.len(),
                pos <= end <= n,
                line_end(text@, end as int) == line_end(text@, pos as int),
            decreases n - end,
        {
            end = end + 1;
        }
        let mut stop = end;
        if end < n && stop > pos && chars[stop - 1] == '\r' {
            stop = stop - 1;
        }
        proof {
            lemma_line_end_bounds(text@, pos as int);
            let rest = lines_from(text@, end + 1);
            let line = line_at(text@, pos as int);
            assert(line =~= text@.subrange(pos as int, stop as int));
            assert((seq![line] + rest).drop_first() =~= rest);
            assert(scan.absorb(lines_from(text@, pos as int)) == scan.step(line).absorb(rest));
        }
        if stop > pos && chars[pos] == '%' && chars[stop - 1] == '%' {
            field = header_field(&chars, pos, stop);
            awaiting = true;
        } else if stop > pos && awaiting {
            match field {
                Field::Name => {
                    name = (pos, stop);
                },
                Field::Base => {
                    base = (pos, stop);
                },
                Field::Version => {
                    version = (pos, stop);
                },
                Field::Other => {},
            }
            awaiting = false;
        }
        proof {
            scan = scan.step(text@.subrange(pos as int, stop as int));
        }
        pos = if end < n {
            end + 1
        } else {
            end
        };
    }
    Package {
        name: text.substring_char(name.0, name.1).to_owned(),
        base: text.substring_char(base.0, base.1).to_owned(),
        version: text.substring_char(version.0, version.1).to_owned(),
    }
}

/// What was found where the descriptor of a package should be.
#[derive(Clone, Debug, PartialEq, Eq)]
pub enum Descriptor {
    /// The text of the descriptor.
    Text(String),
    /// The package has no descriptor.
    Missing,
    /// There is something that cannot be read at all.
    Unreadable,
}

/// The snapshot of an unpacked index, from what was found for each package,
/// in their order. A package without a descriptor is there with every field
/// empty. A package of which nothing can be read is not there.
pub open spec fn snapshot_of(found: Seq<Descriptor>) -> Seq<PackageView>
    decreases found.len(),
{
    if found.len() == 0 {
        Seq::empty()
    } else {
        let before = snapshot_of(found.drop_last());
        match found.last() {
            Descriptor::Text(text) => before.push(parsed(text@)),
            Descriptor::Missing => before.push(PackageView::blank()),
            Descriptor::Unreadable => before,
        }
    }
}

/// Reads the descriptors of an unpacked index.
pub fn collect_snapshot(found: &[Descriptor]) -> (snapshot: Vec<Package>)
    ensures
        package_views(snapshot@) == snapshot_of(found@),
{
    let mut snapshot: Vec<Package> = Vec::new();
    let mut i: usize = 0;
    assert(package_views(snapshot@) =~= snapshot_of(found@.take(0)));
    while i < found.len()
        invariant
            i <= found@.len(),
            package_views(snapshot@) == snapshot_of(found@.take(i as int)),
        decreases found@.len() - i,
    {
        let ghost before = package_views(snapshot@);
        proof {
            assert(found@.take(i + 1).drop_last() =~= found@.take(i as int));
        }
        match &found[i] {
            Descriptor::Text(text) => {
                snapshot.push(parse_desc(text.as_str()));
                assert(package_views(snapshot@) =~= before.push(parsed(text@)));
            },
            Descriptor::Missing => {
                snapshot.push(
                    Package { name: String::new(), base: String::new(), version: String::new() },
                );
                assert(package_views(snapshot@) =~= before.push(PackageView::blank()));
            },
            Descriptor::Unreadable => {},
        }
        i = i + 1;
    }
    assert(found@.take(found@.len() as int) =~= found@);
    snapshot
}

} // verus!
