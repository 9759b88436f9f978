//! Descriptor registry: Table B (element descriptors) and Table D
//! (sequences), keyed by (X, Y), loaded from catalogue files and merged in
//! order, with a small bundled starter table.

use vstd::prelude::*;
use std::collections::HashMap;
use vstd::string::StrSliceExecFns;

use crate::units::{
    parse_i32_text, parse_u16_text, parse_u8_text, spec_parse_int, spec_unit_known, str_eq,
    BUFRUnit,
};

verus! {

broadcast use vstd::std_specs::hash::group_hash_axioms;

/// A Table B row in memory: how one element is encoded in the bit stream.
/// The scale is the power of ten the value was multiplied by before
/// encoding; the reference is added back after decoding; the width is the
/// number of bits the raw integer occupies.
#[derive(Debug, Clone, PartialEq)]
pub struct ElementDescriptor {
    pub name: String,
    pub unit: BUFRUnit,
    pub scale: i32,
    pub reference_value: i32,
    pub data_width: u16,
}

/// A child entry of a Table D sequence, by kind.
#[derive(Debug, Clone, Copy, PartialEq, Eq, Structural)]
pub enum Descriptor {
    /// An element descriptor (F=0) with its (X, Y).
    Element(u8, u8),
    /// A replication descriptor (F=1) with its (X, Y).
    Replication(u8, u8),
    /// An operator descriptor (F=2) with its (X, Y).
    Operator(u8, u8),
    /// A sequence descriptor (F=3) with its (X, Y).
    Sequence(u8, u8),
}

impl Descriptor {
    /// The (F, X, Y) triple this entry denotes.
    pub fn to_triple(&self) -> (r: crate::descriptor::Descriptor)
        ensures
            r == spec_enum_to_triple(*self),
    {
        match *self {
            Descriptor::Element(x, y) => crate::descriptor::Descriptor { f: 0, x, y },
            Descriptor::Replication(x, y) => crate::descriptor::Descriptor { f: 1, x, y },
            Descriptor::Operator(x, y) => crate::descriptor::Descriptor { f: 2, x, y },
            Descriptor::Sequence(x, y) => crate::descriptor::Descriptor { f: 3, x, y },
        }
    }
}

/// The (F, X, Y) triple a sequence child denotes.
pub open spec fn spec_enum_to_triple(d: Descriptor) -> crate::descriptor::Descriptor {
    match d {
        Descriptor::Element(x, y) => crate::descriptor::Descriptor { f: 0, x, y },
        Descriptor::Replication(x, y) => crate::descriptor::Descriptor { f: 1, x, y },
        Descriptor::Operator(x, y) => crate::descriptor::Descriptor { f: 2, x, y },
        Descriptor::Sequence(x, y) => crate::descriptor::Descriptor { f: 3, x, y },
    }
}

/// A Table D row set in memory: the ordered children of one sequence, and
/// its title when the catalogue gives one.
#[derive(Debug, Clone, PartialEq)]
pub struct F3 {
    pub descriptors: Vec<Descriptor>,
    pub title: Option<String>,
}

impl F3 {
    /// How many children the sequence has.
    pub fn len(&self) -> (r: usize)
        ensures
            r == self.descriptors@.len(),
    {
        self.descriptors.len()
    }

    /// A copy of the ordered children.
    pub fn descriptors(&self) -> (r: Vec<Descriptor>)
        ensures
            r@ == self.descriptors@,
    {
        let mut out: Vec<Descriptor> = Vec::new();
        let mut k: usize = 0;
        while k < self.descriptors.len()
            invariant
                k <= self.descriptors@.len(),
                out@ == self.descriptors@.take(k as int),
            decreases self.descriptors@.len() - k,
        {
            out.push(self.descriptors[k]);
            proof {
                assert(self.descriptors@.take(k + 1) =~= self.descriptors@.take(k as int).push(
                    self.descriptors@[k as int],
                ));
            }
            k = k + 1;
        }
        proof {
            assert(self.descriptors@.take(self.descriptors@.len() as int) =~= self.descriptors@);
        }
        out
    }
}

/// Table B in memory, keyed by `256 * X + Y`.
pub type TableF0 = HashMap<u16, ElementDescriptor>;

/// Table D in memory, keyed by `256 * X + Y`.
pub type TableF3 = HashMap<u16, F3>;

/// The registry key for an (X, Y) pair.
pub open spec fn spec_key(x: u8, y: u8) -> u16 {
    (256 * x + y) as u16
}

/// The bit width a few local Table B entries use, for widths known without
/// a catalogue; `None` for any other entry.
pub open spec fn spec_width_value(x: u8, y: u8) -> Option<usize> {
    match (x, y) {
        (1u8, 27u8) => Some(80usize),
        (5u8, 2u8) => Some(2usize),
        (6u8, 2u8) => Some(2usize),
        (8u8, 5u8) => Some(4usize),
        (19u8, 5u8) => Some(9usize),
        (19u8, 6u8) => Some(14usize),
        (19u8, 107u8) => Some(4usize),
        (19u8, 108u8) => Some(3usize),
        (19u8, 109u8) => Some(4usize),
        (19u8, 110u8) => Some(4usize),
        (19u8, 111u8) => Some(7usize),
        (19u8, 112u8) => Some(7usize),
        (19u8, 113u8) => Some(4usize),
        (19u8, 114u8) => Some(7usize),
        (19u8, 115u8) => Some(6usize),
        (19u8, 116u8) => Some(7usize),
        (19u8, 117u8) => Some(3usize),
        (19u8, 118u8) => Some(7usize),
        (19u8, 119u8) => Some(3usize),
        (19u8, 150u8) => Some(32usize),
        _ => None,
    }
}

/// The bit width of a few element descriptors known without a catalogue.
pub fn width_value_from_table(x: u8, y: u8) -> (r: Option<usize>)
    ensures
        r == spec_width_value(x, y),
{
    match (x, y) {
        (1, 27) => Some(80),
        (5, 2) => Some(2),
        (6, 2) => Some(2),
        (8, 5) => Some(4),
        (19, 5) => Some(9),
        (19, 6) => Some(14),
        (19, 107) => Some(4),
        (19, 108) => Some(3),
        (19, 109) => Some(4),
        (19, 110) => Some(4),
        (19, 111) => Some(7),
        (19, 112) => Some(7),
        (19, 113) => Some(4),
        (19, 114) => Some(7),
        (19, 115) => Some(6),
        (19, 116) => Some(7),
        (19, 117) => Some(3),
        (19, 118) => Some(7),
        (19, 119) => Some(3),
        (19, 150) => Some(32),
        _ => None,
    }
}

/// The registry: Table B and Table D, immutable once loaded, borrowed by
/// every decode call.
pub struct Registry {
    elements: TableF0,
    sequences: TableF3,
}

impl Registry {
    /// The element table as a map from key to row.
    pub closed spec fn elements_map(&self) -> Map<u16, ElementDescriptor> {
        self.elements@
    }

    /// The sequence table as a map from key to row set.
    pub closed spec fn sequences_map(&self) -> Map<u16, F3> {
        self.sequences@
    }

    /// An empty registry.
    pub fn new() -> (r: Registry)
        ensures
            r.elements_map() == Map::<u16, ElementDescriptor>::empty(),
            r.sequences_map() == Map::<u16, F3>::empty(),
    {
        Registry { elements: HashMap::new(), sequences: HashMap::new() }
    }

    /// Looks up the Table B row of element (X, Y); `None` when the registry
    /// has no such element.
    pub fn element(&self, x: u8, y: u8) -> (r: Option<&ElementDescriptor>)
        ensures
            match r {
                Some(e) => self.elements_map().contains_key(spec_key(x, y)) && *e
                    == self.elements_map()[spec_key(x, y)],
                None => !self.elements_map().contains_key(spec_key(x, y)),
            },
    {
        let key: u16 = 256 * (x as u16) + (y as u16);
        self.elements.get(&key)
    }

    /// Looks up the Table D row set of sequence (X, Y); `None` when the
    /// registry has no such sequence.
    pub fn sequence(&self, x: u8, y: u8) -> (r: Option<&F3>)
        ensures
            match r {
                Some(s) => self.sequences_map().contains_key(spec_key(x, y)) && *s
                    == self.sequences_map()[spec_key(x, y)],
                None => !self.sequences_map().contains_key(spec_key(x, y)),
            },
    {
        let key: u16 = 256 * (x as u16) + (y as u16);
        self.sequences.get(&key)
    }

    /// Puts one element row into Table B, replacing any earlier row with
    /// the same (X, Y).
    pub fn insert_element(&mut self, x: u8, y: u8, e: ElementDescriptor)
        ensures
            final(self).elements_map() == old(self).elements_map().insert(spec_key(x, y), e),
            final(self).sequences_map() == old(self).sequences_map(),
    {
        let key: u16 = 256 * (x as u16) + (y as u16);
        self.elements.insert(key, e);
    }

    /// Puts one sequence row set into Table D, replacing any earlier one
    /// with the same (X, Y).
    pub fn insert_sequence(&mut self, x: u8, y: u8, s: F3)
        ensures
            final(self).sequences_map() == old(self).sequences_map().insert(spec_key(x, y), s),
            final(self).elements_map() == old(self).elements_map(),
    {
        let key: u16 = 256 * (x as u16) + (y as u16);
        self.sequences.insert(key, s);
    }

    /// Merges the rows of one Table B catalogue file into the registry;
    /// later rows override earlier ones for the same key, rows that do not
    /// parse are skipped. Returns one warning for each row whose unit text
    /// names no known unit: such a row's element keeps the text and loads
    /// all the same.
    pub fn load_table_b(&mut self, data: &[u8]) -> (warns: Vec<String>)
        ensures
            table_f0_loaded(old(self).elements_map(), final(self).elements_map(), csv_rows_of(
                data@,
            )),
            final(self).sequences_map() == old(self).sequences_map(),
            warns@.len() == spec_unknown_units(
                csv_rows_of(data@)[0],
                csv_rows_of(data@),
                csv_rows_of(data@).len() as int,
            ),
    {
        let rows = csv_rows(data);
        load_rows_f0(&mut self.elements, &rows)
    }

    /// Merges the rows of one Table D catalogue file into the registry;
    /// rows with the same parent (X, Y) aggregate in order into one
    /// sequence, replacing any sequence an earlier file gave that key.
    pub fn load_table_d(&mut self, data: &[u8])
        ensures
            table_f3_loaded(old(self).sequences_map(), final(self).sequences_map(), csv_rows_of(
                data@,
            )),
            final(self).elements_map() == old(self).elements_map(),
    {
        let rows = csv_rows(data);
        load_rows_f3(&mut self.sequences, &rows);
    }
}

/// An element row from its parts.
fn ed(name: &str, unit: BUFRUnit, scale: i32, reference_value: i32, data_width: u16) -> (e:
    ElementDescriptor)
    ensures
        e.name@ == name@,
        e.unit == unit,
        e.scale == scale,
        e.reference_value == reference_value,
        e.data_width == data_width,
{
    ElementDescriptor { name: name.to_owned(), unit, scale, reference_value, data_width }
}

/// The element table holds, under (X, Y), exactly this row.
pub open spec fn spec_elem_row(
    m: Map<u16, ElementDescriptor>,
    x: u8,
    y: u8,
    name: Seq<char>,
    unit: BUFRUnit,
    scale: int,
    reference: int,
    width: int,
) -> bool {
    &&& m.contains_key(spec_key(x, y))
    &&& m[spec_key(x, y)].name@ == name
    &&& m[spec_key(x, y)].unit == unit
    &&& m[spec_key(x, y)].scale == scale
    &&& m[spec_key(x, y)].reference_value == reference
    &&& m[spec_key(x, y)].data_width == width
}

impl Registry {
    /// A registry holding a small bundled catalogue: every element and
    /// sequence row this crate knows without loading files, among them
    /// the delayed-replication count elements.
    #[verifier::rlimit(100)]
    pub fn bundled() -> (r: Registry)
        ensures
            spec_elem_row(r.elements_map(), 1, 1, "WMO block number"@, BUFRUnit::Numeric, 0, 0, 7),
            spec_elem_row(r.elements_map(), 1, 2, "WMO station number"@, BUFRUnit::Numeric, 0, 0, 10),
            spec_elem_row(r.elements_map(), 1, 19, "Long station or site name"@, BUFRUnit::CCITTIA5, 0, 0, 256),
            spec_elem_row(r.elements_map(), 1, 36, "Agency in charge of operating the observing platform"@, BUFRUnit::CodeTable, 0, 0, 20),
            spec_elem_row(r.elements_map(), 1, 85, "Observing platform manufacturer's model"@, BUFRUnit::CCITTIA5, 0, 0, 160),
            spec_elem_row(r.elements_map(), 1, 86, "Observing platform manufacturer's serial number"@, BUFRUnit::CCITTIA5, 0, 0, 256),
            spec_elem_row(r.elements_map(), 1, 87, "WMO marine observing platform extended identifier"@, BUFRUnit::Numeric, 0, 0, 23),
            spec_elem_row(r.elements_map(), 1, 125, "WIGOS identifier series"@, BUFRUnit::Numeric, 0, 0, 4),
            spec_elem_row(r.elements_map(), 1, 126, "WIGOS issuer of identifier"@, BUFRUnit::Numeric, 0, 0, 16),
            spec_elem_row(r.elements_map(), 1, 127, "WIGOS issue number"@, BUFRUnit::Numeric, 0, 0, 16),
            spec_elem_row(r.elements_map(), 1, 128, "WIGOS local identifier (character)"@, BUFRUnit::CCITTIA5, 0, 0, 128),
            spec_elem_row(r.elements_map(), 4, 1, "Year"@, BUFRUnit::Year, 0, 0, 12),
            spec_elem_row(r.elements_map(), 4, 2, "Month"@, BUFRUnit::Month, 0, 0, 4),
            spec_elem_row(r.elements_map(), 4, 3, "Day"@, BUFRUnit::Day, 0, 0, 6),
            spec_elem_row(r.elements_map(), 4, 4, "Hour"@, BUFRUnit::Hour, 0, 0, 5),
            spec_elem_row(r.elements_map(), 4, 5, "Minute"@, BUFRUnit::Minute, 0, 0, 6),
            spec_elem_row(r.elements_map(), 4, 6, "Second"@, BUFRUnit::Second, 0, 0, 6),
            spec_elem_row(r.elements_map(), 4, 31, "Duration of time relating to following value"@, BUFRUnit::Hour, 0, 0, 8),
            spec_elem_row(r.elements_map(), 5, 1, "Latitude (high accuracy)"@, BUFRUnit::Degree, 5, -9000000, 25),
            spec_elem_row(r.elements_map(), 6, 1, "Longitude (high accuracy)"@, BUFRUnit::Degree, 5, -18000000, 26),
            spec_elem_row(r.elements_map(), 8, 21, "Time significance"@, BUFRUnit::CodeTable, 0, 0, 5),
            spec_elem_row(r.elements_map(), 31, 0, "Short delayed descriptor replication factor"@, BUFRUnit::Numeric, 0, 0, 1),
            spec_elem_row(r.elements_map(), 31, 1, "Delayed descriptor replication factor"@, BUFRUnit::Numeric, 0, 0, 8),
            spec_elem_row(r.elements_map(), 31, 2, "Extended delayed descriptor replication factor"@, BUFRUnit::Numeric, 0, 0, 16),
            r.sequences_map().contains_key(spec_key(1, 1)) && r.sequences_map()[spec_key(
                1,
                1,
            )].descriptors@ == seq![Descriptor::Element(1, 1), Descriptor::Element(1, 2)],
            r.sequences_map().contains_key(spec_key(1, 2)) && r.sequences_map()[spec_key(
                1,
                2,
            )].descriptors@ == seq![Descriptor::Element(1, 3), Descriptor::Element(1, 4), Descriptor::Element(1, 5)],
            r.sequences_map().contains_key(spec_key(1, 11)) && r.sequences_map()[spec_key(
                1,
                11,
            )].descriptors@ == seq![Descriptor::Element(4, 1), Descriptor::Element(4, 2), Descriptor::Element(4, 3)],
            r.sequences_map().contains_key(spec_key(1, 12)) && r.sequences_map()[spec_key(
                1,
                12,
            )].descriptors@ == seq![Descriptor::Element(4, 4), Descriptor::Element(4, 5)],
            r.sequences_map().contains_key(spec_key(1, 13)) && r.sequences_map()[spec_key(
                1,
                13,
            )].descriptors@ == seq![Descriptor::Element(4, 4), Descriptor::Element(4, 5), Descriptor::Element(4, 6)],
            r.sequences_map().contains_key(spec_key(1, 21)) && r.sequences_map()[spec_key(
                1,
                21,
            )].descriptors@ == seq![Descriptor::Element(5, 1), Descriptor::Element(6, 1)],
    {
        let mut r = Registry::new();
        r.insert_element(1, 1, ed("WMO block number", BUFRUnit::Numeric, 0, 0, 7));
        r.insert_element(1, 2, ed("WMO station number", BUFRUnit::Numeric, 0, 0, 10));
        r.insert_element(1, 19, ed("Long station or site name", BUFRUnit::CCITTIA5, 0, 0, 256));
        r.insert_element(
            1,
            36,
            ed("Agency in charge of operating the observing platform", BUFRUnit::CodeTable, 0, 0, 20),
        );
        r.insert_element(
            1,
            85,
            ed("Observing platform manufacturer's model", BUFRUnit::CCITTIA5, 0, 0, 160),
        );
        r.insert_element(
            1,
            86,
            ed("Observing platform manufacturer's serial number", BUFRUnit::CCITTIA5, 0, 0, 256),
        );
        r.insert_element(
            1,
            87,
            ed("WMO marine observing platform extended identifier", BUFRUnit::Numeric, 0, 0, 23),
        );
        r.insert_element(1, 125, ed("WIGOS identifier series", BUFRUnit::Numeric, 0, 0, 4));
        r.insert_element(1, 126, ed("WIGOS issuer of identifier", BUFRUnit::Numeric, 0, 0, 16));
        r.insert_element(1, 127, ed("WIGOS issue number", BUFRUnit::Numeric, 0, 0, 16));
        r.insert_element(
            1,
            128,
            ed("WIGOS local identifier (character)", BUFRUnit::CCITTIA5, 0, 0, 128),
        );
        r.insert_element(4, 1, ed("Year", BUFRUnit::Year, 0, 0, 12));
        r.insert_element(4, 2, ed("Month", BUFRUnit::Month, 0, 0, 4));
        r.insert_element(4, 3, ed("Day", BUFRUnit::Day, 0, 0, 6));
        r.insert_element(4, 4, ed("Hour", BUFRUnit::Hour, 0, 0, 5));
        r.insert_element(4, 5, ed("Minute", BUFRUnit::Minute, 0, 0, 6));
        r.insert_element(4, 6, ed("Second", BUFRUnit::Second, 0, 0, 6));
        r.insert_element(
            4,
            31,
            ed("Duration of time relating to following value", BUFRUnit::Hour, 0, 0, 8),
        );
        r.insert_element(5, 1, ed("Latitude (high accuracy)", BUFRUnit::Degree, 5, -9000000, 25));
        r.insert_element(6, 1, ed("Longitude (high accuracy)", BUFRUnit::Degree, 5, -18000000, 26));
        r.insert_element(8, 21, ed("Time significance", BUFRUnit::CodeTable, 0, 0, 5));
        r.insert_element(
            31,
            0,
            ed("Short delayed descriptor replication factor", BUFRUnit::Numeric, 0, 0, 1),
        );
        r.insert_element(
            31,
            1,
            ed("Delayed descriptor replication factor", BUFRUnit::Numeric, 0, 0, 8),
        );
        r.insert_element(
            31,
            2,
            ed("Extended delayed descriptor replication factor", BUFRUnit::Numeric, 0, 0, 16),
        );
        let mut s: Vec<Descriptor> = Vec::new();
        s.push(Descriptor::Element(1, 1));
        s.push(Descriptor::Element(1, 2));
        r.insert_sequence(1, 1, F3 { descriptors: s, title: None });
        let mut s: Vec<Descriptor> = Vec::new();
        s.push(Descriptor::Element(1, 3));
        s.push(Descriptor::Element(1, 4));
        s.push(Descriptor::Element(1, 5));
        r.insert_sequence(1, 2, F3 { descriptors: s, title: None });
        let mut s: Vec<Descriptor> = Vec::new();
        s.push(Descriptor::Element(4, 1));
        s.push(Descriptor::Element(4, 2));
        s.push(Descriptor::Element(4, 3));
        r.insert_sequence(1, 11, F3 { descriptors: s, title: None });
        let mut s: Vec<Descriptor> = Vec::new();
        s.push(Descriptor::Element(4, 4));
        s.push(Descriptor::Element(4, 5));
        r.insert_sequence(1, 12, F3 { descriptors: s, title: None });
        let mut s: Vec<Descriptor> = Vec::new();
        s.push(Descriptor::Element(4, 4));
        s.push(Descriptor::Element(4, 5));
        s.push(Descriptor::Element(4, 6));
        r.insert_sequence(1, 13, F3 { descriptors: s, title: None });
        let mut s: Vec<Descriptor> = Vec::new();
        s.push(Descriptor::Element(5, 1));
        s.push(Descriptor::Element(6, 1));
        r.insert_sequence(1, 21, F3 { descriptors: s, title: None });
        r
    }
}

/// What the csv reader yields for a byte buffer: every record's fields in
/// order, the header record included; the result is a function of the
/// bytes alone.
pub uninterp spec fn csv_rows_of(data: Seq<u8>) -> Seq<Seq<Seq<char>>>;

/// Relies on csv::Reader: splits CSV text into records and fields. The
/// records of a byte buffer are a function of the bytes alone; a record
/// the reader reports an error for ends the walk.
#[verifier::external_body]
fn csv_rows(data: &[u8]) -> (rows: Vec<Vec<String>>)
    ensures
        rows.deep_view() == csv_rows_of(data@),
{
    let mut rdr = csv::ReaderBuilder::new().has_headers(false).from_reader(data);
    let mut out: Vec<Vec<String>> = Vec::new();
    for rec in rdr.records() {
        match rec {
            Ok(r) => out.push(r.iter().map(|f| f.to_string()).collect()),
            Err(_) => {
                break ;
            },
        }
    }
    out
}

/// The first column at or past `i` whose header text is `name`.
pub open spec fn spec_col_from(hdr: Seq<Seq<char>>, name: Seq<char>, i: int) -> Option<int>
    decreases hdr.len() - i,
{
    if i < 0 || i >= hdr.len() {
        None
    } else if hdr[i] == name {
        Some(i)
    } else {
        spec_col_from(hdr, name, i + 1)
    }
}

/// The field of `row` under the header column named `name`.
pub open spec fn spec_field(hdr: Seq<Seq<char>>, row: Seq<Seq<char>>, name: Seq<char>) -> Option<
    Seq<char>,
> {
    match spec_col_from(hdr, name, 0) {
        Some(j) => if j < row.len() {
            Some(row[j])
        } else {
            None
        },
        None => None,
    }
}

/// Finds the column whose header text is `name`.
fn header_col(hdr: &Vec<String>, name: &str) -> (r: Option<usize>)
    ensures
        match r {
            Some(j) => spec_col_from(hdr.deep_view(), name@, 0) == Some(j as int),
            None => spec_col_from(hdr.deep_view(), name@, 0) is None,
        },
{
    let mut j: usize = 0;
    while j < hdr.len()
        invariant
            j <= hdr@.len(),
            hdr.deep_view().len() == hdr@.len(),
            spec_col_from(hdr.deep_view(), name@, 0) == spec_col_from(
                hdr.deep_view(),
                name@,
                j as int,
            ),
        decreases hdr@.len() - j,
    {
        if str_eq(hdr[j].as_str(), name) {
            return Some(j);
        }
        j = j + 1;
    }
    None
}

/// Gets the field of `row` under the header column named `name`.
fn field_at<'a>(hdr: &Vec<String>, row: &'a Vec<String>, name: &str) -> (r: Option<&'a String>)
    ensures
        match r {
            Some(f) => spec_field(hdr.deep_view(), row.deep_view(), name@) == Some(f@),
            None => spec_field(hdr.deep_view(), row.deep_view(), name@) is None,
        },
{
    match header_col(hdr, name) {
        Some(j) => if j < row.len() {
            Some(&row[j])
        } else {
            None
        },
        None => None,
    }
}

/// A signed field parses and fits an `i32`.
pub open spec fn spec_i32_ok(f: Option<Seq<char>>) -> bool {
    f is Some && spec_parse_int(f->0) is Some && -0x8000_0000 <= spec_parse_int(f->0)->0
        <= 0x7fff_ffff
}

/// The parsed value of a signed field.
pub open spec fn spec_i32_val(f: Option<Seq<char>>) -> int {
    spec_parse_int(f->0)->0
}

/// An unsigned field parses and fits a `u16`.
pub open spec fn spec_u16_ok(f: Option<Seq<char>>) -> bool {
    f is Some && spec_parse_int(f->0) is Some && 0 <= spec_parse_int(f->0)->0 <= 0xffff
}

/// A Table B catalogue row as read from the file, fields still textual
/// except the three numeric columns.
#[allow(non_snake_case)]
#[derive(Debug, Clone, PartialEq)]
pub struct RecordF0 {
    pub ClassNo: String,
    pub ClassName_en: String,
    pub FXY: String,
    pub ElementName_en: String,
    pub Note_en: Option<String>,
    pub BUFR_Unit: String,
    pub BUFR_Scale: i32,
    pub BUFR_ReferenceValue: i32,
    pub BUFR_DataWidth_Bits: u16,
    pub Status: String,
}

/// A row holds every column a Table B record needs, with numbers that
/// parse and fit their types.
pub open spec fn spec_rec_f0_ok(hdr: Seq<Seq<char>>, row: Seq<Seq<char>>) -> bool {
    &&& spec_field(hdr, row, "ClassNo"@) is Some
    &&& spec_field(hdr, row, "ClassName_en"@) is Some
    &&& spec_field(hdr, row, "FXY"@) is Some
    &&& spec_field(hdr, row, "ElementName_en"@) is Some
    &&& spec_field(hdr, row, "BUFR_Unit"@) is Some
    &&& spec_field(hdr, row, "Status"@) is Some
    &&& spec_i32_ok(spec_field(hdr, row, "BUFR_Scale"@))
    &&& spec_i32_ok(spec_field(hdr, row, "BUFR_ReferenceValue"@))
    &&& spec_u16_ok(spec_field(hdr, row, "BUFR_DataWidth_Bits"@))
}

/// The record holds exactly what the row's columns say.
pub open spec fn spec_rec_f0_matches(rec: RecordF0, hdr: Seq<Seq<char>>, row: Seq<Seq<char>>) -> bool {
    &&& rec.ClassNo@ == spec_field(hdr, row, "ClassNo"@)->0
    &&& rec.ClassName_en@ == spec_field(hdr, row, "ClassName_en"@)->0
    &&& rec.FXY@ == spec_field(hdr, row, "FXY"@)->0
    &&& rec.ElementName_en@ == spec_field(hdr, row, "ElementName_en"@)->0
    &&& (match spec_field(hdr, row, "Note_en"@) {
        Some(t) => if t.len() > 0 {
            rec.Note_en matches Some(nt) && nt@ == t
        } else {
            rec.Note_en is None
        },
        None => rec.Note_en is None,
    })
    &&& rec.BUFR_Unit@ == spec_field(hdr, row, "BUFR_Unit"@)->0
    &&& rec.BUFR_Scale as int == spec_i32_val(spec_field(hdr, row, "BUFR_Scale"@))
    &&& rec.BUFR_ReferenceValue as int == spec_i32_val(
        spec_field(hdr, row, "BUFR_ReferenceValue"@),
    )
    &&& rec.BUFR_DataWidth_Bits as int == spec_i32_val(
        spec_field(hdr, row, "BUFR_DataWidth_Bits"@),
    )
    &&& rec.Status@ == spec_field(hdr, row, "Status"@)->0
}

/// Reads one Table B catalogue row into a record, mapping columns by
/// header name; `None` when a needed column is absent or a number does not
/// parse.
pub fn record_f0_from_row(hdr: &Vec<String>, row: &Vec<String>) -> (r: Option<RecordF0>)
    ensures
        match r {
            Some(rec) => spec_rec_f0_ok(hdr.deep_view(), row.deep_view()) && spec_rec_f0_matches(
                rec,
                hdr.deep_view(),
                row.deep_view(),
            ),
            None => !spec_rec_f0_ok(hdr.deep_view(), row.deep_view()),
        },
{
    let class_no = match field_at(hdr, row, "ClassNo") {
        Some(f) => f.clone(),
        None => {
            return None;
        },
    };
    let class_name = match field_at(hdr, row, "ClassName_en") {
        Some(f) => f.clone(),
        None => {
            return None;
        },
    };
    let fxy = match field_at(hdr, row, "FXY") {
        Some(f) => f.clone(),
        None => {
            return None;
        },
    };
    let element_name = match field_at(hdr, row, "ElementName_en") {
        Some(f) => f.clone(),
        None => {
            return None;
        },
    };
    let note = match field_at(hdr, row, "Note_en") {
        Some(f) => if f.as_str().unicode_len() > 0 {
            Some(f.clone())
        } else {
            None
        },
        None => None,
    };
    let unit = match field_at(hdr, row, "BUFR_Unit") {
        Some(f) => f.clone(),
        None => {
            return None;
        },
    };
    let status = match field_at(hdr, row, "Status") {
        Some(f) => f.clone(),
        None => {
            return None;
        },
    };
    let scale = match field_at(hdr, row, "BUFR_Scale") {
        Some(f) => match parse_i32_text(f.as_str()) {
            Some(v) => v,
            None => {
                return None;
            },
        },
        None => {
            return None;
        },
    };
    let reference = match field_at(hdr, row, "BUFR_ReferenceValue") {
        Some(f) => match parse_i32_text(f.as_str()) {
            Some(v) => v,
            None => {
                return None;
            },
        },
        None => {
            return None;
        },
    };
    let width = match field_at(hdr, row, "BUFR_DataWidth_Bits") {
        Some(f) => match parse_u16_text(f.as_str()) {
            Some(v) => v,
            None => {
                return None;
            },
        },
        None => {
            return None;
        },
    };
    Some(
        RecordF0 {
            ClassNo: class_no,
            ClassName_en: class_name,
            FXY: fxy,
            ElementName_en: element_name,
            Note_en: note,
            BUFR_Unit: unit,
            BUFR_Scale: scale,
            BUFR_ReferenceValue: reference,
            BUFR_DataWidth_Bits: width,
            Status: status,
        },
    )
}

/// The (X, Y) a catalogue FXY string denotes: X from its second and third
/// characters, Y from the rest.
pub open spec fn spec_fxy(fxy: Seq<char>) -> Option<(u8, u8)> {
    if fxy.len() < 4 {
        None
    } else {
        match (spec_parse_int(fxy.subrange(1, 3)), spec_parse_int(
            fxy.subrange(3, fxy.len() as int),
        )) {
            (Some(x), Some(y)) => if 0 <= x <= 255 && 0 <= y <= 255 {
                Some((x as u8, y as u8))
            } else {
                None
            },
            _ => None,
        }
    }
}

/// The kind digit of a catalogue FXY string: its first character's value.
pub open spec fn spec_fxy_f(fxy: Seq<char>) -> Option<int> {
    if fxy.len() < 1 {
        None
    } else {
        crate::units::spec_digit(fxy[0])
    }
}

/// Splits a catalogue FXY string into its (X, Y) pair.
pub fn fxy_parts(s: &str) -> (r: Option<(u8, u8)>)
    ensures
        r == spec_fxy(s@),
{
    let n = s.unicode_len();
    if n < 4 {
        return None;
    }
    let xs = s.substring_char(1, 3);
    let ys = s.substring_char(3, n);
    match (parse_u8_text(xs), parse_u8_text(ys)) {
        (Some(x), Some(y)) => Some((x, y)),
        _ => None,
    }
}

/// The kind digit of a catalogue FXY string.
pub fn fxy_f(s: &str) -> (r: Option<u8>)
    ensures
        match r {
            Some(f) => spec_fxy_f(s@) == Some(f as int),
            None => spec_fxy_f(s@) is None,
        },
{
    let n = s.unicode_len();
    if n < 1 {
        return None;
    }
    let c = s.get_char(0);
    let cv = c as u32;
    if 48 <= cv && cv <= 57 {
        Some((cv - 48) as u8)
    } else {
        None
    }
}

/// The element row a Table B record denotes.
pub open spec fn spec_ed_of_rec(e: ElementDescriptor, rec: RecordF0) -> bool {
    &&& e.name@ == rec.ElementName_en@
    &&& (match spec_unit_known(rec.BUFR_Unit@) {
        Some(u) => e.unit == u,
        None => e.unit matches BUFRUnit::Other(t) && t@ == rec.BUFR_Unit@,
    })
    &&& e.scale == rec.BUFR_Scale
    &&& e.reference_value == rec.BUFR_ReferenceValue
    &&& e.data_width == rec.BUFR_DataWidth_Bits
}

/// Turns a Table B record into its registry key and element row; `None`
/// when its FXY string does not parse.
pub fn element_from_record(rec: &RecordF0) -> (r: Option<(u8, u8, ElementDescriptor)>)
    ensures
        match r {
            Some((x, y, e)) => spec_fxy(rec.FXY@) == Some((x, y)) && spec_ed_of_rec(e, *rec),
            None => spec_fxy(rec.FXY@) is None,
        },
{
    let (x, y) = match fxy_parts(rec.FXY.as_str()) {
        Some(p) => p,
        None => {
            return None;
        },
    };
    let e = ElementDescriptor {
        name: rec.ElementName_en.clone(),
        unit: BUFRUnit::from_text(rec.BUFR_Unit.as_str()),
        scale: rec.BUFR_Scale,
        reference_value: rec.BUFR_ReferenceValue,
        data_width: rec.BUFR_DataWidth_Bits,
    };
    Some((x, y, e))
}

/// The registry key a Table B row supplies, when the whole row parses.
pub open spec fn spec_row_f0_key(hdr: Seq<Seq<char>>, row: Seq<Seq<char>>) -> Option<u16> {
    if spec_rec_f0_ok(hdr, row) {
        match spec_fxy(spec_field(hdr, row, "FXY"@)->0) {
            Some((x, y)) => Some(spec_key(x, y)),
            None => None,
        }
    } else {
        None
    }
}

/// The element row holds exactly what the Table B row's columns say.
pub open spec fn spec_row_f0_ed(e: ElementDescriptor, hdr: Seq<Seq<char>>, row: Seq<Seq<char>>) -> bool {
    &&& e.name@ == spec_field(hdr, row, "ElementName_en"@)->0
    &&& (match spec_unit_known(spec_field(hdr, row, "BUFR_Unit"@)->0) {
        Some(u) => e.unit == u,
        None => e.unit matches BUFRUnit::Other(t) && t@ == spec_field(hdr, row, "BUFR_Unit"@)->0,
    })
    &&& e.scale as int == spec_i32_val(spec_field(hdr, row, "BUFR_Scale"@))
    &&& e.reference_value as int == spec_i32_val(spec_field(hdr, row, "BUFR_ReferenceValue"@))
    &&& e.data_width as int == spec_i32_val(spec_field(hdr, row, "BUFR_DataWidth_Bits"@))
}

/// The last row before `upto` whose key is `k`, rows that do not parse
/// skipped; row 0 is the header.
pub open spec fn spec_last_f0_row(
    hdr: Seq<Seq<char>>,
    rows: Seq<Seq<Seq<char>>>,
    upto: int,
    k: u16,
) -> Option<int>
    decreases upto,
{
    if upto <= 1 {
        None
    } else if spec_row_f0_key(hdr, rows[upto - 1]) == Some(k) {
        Some(upto - 1)
    } else {
        spec_last_f0_row(hdr, rows, upto - 1, k)
    }
}

/// A Table B row that parses but whose unit text names no known unit: its
/// element is kept with the text retained, and the load reports a warning.
pub open spec fn spec_row_unknown_unit(hdr: Seq<Seq<char>>, row: Seq<Seq<char>>) -> bool {
    spec_row_f0_key(hdr, row) is Some && spec_unit_known(
        spec_field(hdr, row, "BUFR_Unit"@)->0,
    ) is None
}

/// How many rows before `upto` parse with an unknown unit text; row 0 is
/// the header.
pub open spec fn spec_unknown_units(hdr: Seq<Seq<char>>, rows: Seq<Seq<Seq<char>>>, upto: int) -> int
    decreases upto,
{
    if upto <= 1 {
        0
    } else {
        spec_unknown_units(hdr, rows, upto - 1) + (if spec_row_unknown_unit(hdr, rows[upto - 1]) {
            1int
        } else {
            0int
        })
    }
}

/// How a Table B load relates the table before to the table after: every
/// key of a parsed row is present and holds its last row's element, rows
/// never seen leave their entries untouched.
pub open spec fn table_f0_loaded(
    before: Map<u16, ElementDescriptor>,
    after: Map<u16, ElementDescriptor>,
    rows: Seq<Seq<Seq<char>>>,
) -> bool {
    let hdr = rows[0];
    let n = rows.len() as int;
    &&& (forall|k: u16| #[trigger]
        after.contains_key(k) <==> before.contains_key(k) || spec_last_f0_row(hdr, rows, n, k)
            is Some)
    &&& (forall|k: u16| #[trigger]
        after.contains_key(k) ==> match spec_last_f0_row(hdr, rows, n, k) {
            Some(i) => spec_row_f0_ed(after[k], hdr, rows[i]),
            None => before.contains_key(k) && after[k] == before[k],
        })
}

/// Merges the rows of one Table B file into a table; later rows override
/// earlier ones for the same key, rows that do not parse are skipped, and
/// one warning is returned for each parsed row whose unit text names no
/// known unit.
fn load_rows_f0(t: &mut TableF0, rows: &Vec<Vec<String>>) -> (warns: Vec<String>)
    ensures
        table_f0_loaded(old(t)@, final(t)@, rows.deep_view()),
        warns@.len() == spec_unknown_units(
            rows.deep_view()[0],
            rows.deep_view(),
            rows.deep_view().len() as int,
        ),
{
    let ghost r_all = rows.deep_view();
    let ghost h = r_all[0];
    let mut warns: Vec<String> = Vec::new();
    if rows.len() == 0 {
        return warns;
    }
    let mut i: usize = 1;
    while i < rows.len()
        invariant
            1 <= i <= r_all.len(),
            r_all == rows.deep_view(),
            r_all.len() == rows@.len(),
            h == r_all[0],
            warns@.len() == spec_unknown_units(h, r_all, i as int),
            forall|k: u16| #[trigger]
                t@.contains_key(k) <==> old(t)@.contains_key(k) || spec_last_f0_row(
                    h,
                    r_all,
                    i as int,
                    k,
                ) is Some,
            forall|k: u16| #[trigger]
                t@.contains_key(k) ==> match spec_last_f0_row(h, r_all, i as int, k) {
                    Some(m) => spec_row_f0_ed(t@[k], h, r_all[m]),
                    None => old(t)@.contains_key(k) && t@[k] == old(t)@[k],
                },
        decreases r_all.len() - i,
    {
        proof {
            assert(rows.deep_view()[i as int] == rows@[i as int].deep_view());
            assert(rows.deep_view()[0] == rows@[0].deep_view());
        }
        let hdr = &rows[0];
        let row = &rows[i];
        let ghost key_i = spec_row_f0_key(h, r_all[i as int]);
        match record_f0_from_row(hdr, row) {
            Some(rec) => {
                match element_from_record(&rec) {
                    Some((x, y, e)) => {
                        proof {
                            assert(key_i == Some(spec_key(x, y)));
                        }
                        let unknown = match &e.unit {
                            BUFRUnit::Other(_) => true,
                            _ => false,
                        };
                        proof {
                            assert(unknown == spec_row_unknown_unit(h, r_all[i as int]));
                        }
                        if unknown {
                            warns.push("unit text not recognised; kept as text".to_owned());
                        }
                        let key: u16 = 256 * (x as u16) + (y as u16);
                        t.insert(key, e);
                    },
                    None => {
                        proof {
                            assert(key_i is None);
                        }
                    },
                }
            },
            None => {
                proof {
                    assert(key_i is None);
                }
            },
        }
        i = i + 1;
    }
    warns
}

/// Builds Table B from the rows of one catalogue file.
pub fn parse_table_f0(data: &[u8]) -> (t: TableF0)
    ensures
        table_f0_loaded(Map::empty(), t@, csv_rows_of(data@)),
{
    let mut t: TableF0 = HashMap::new();
    let rows = csv_rows(data);
    let _ = load_rows_f0(&mut t, &rows);
    t
}

/// A Table D catalogue row as read from the file: the parent sequence
/// FXY1 and one child FXY2, with the category and title texts.
#[allow(non_snake_case)]
#[derive(Debug, Clone, PartialEq)]
pub struct RecordF3 {
    pub Category: String,
    pub CategoryOfSequences_en: String,
    pub FXY1: String,
    pub Title_en: Option<String>,
    pub SubTitle_en: Option<String>,
    pub FXY2: String,
    pub Status: String,
}

/// A row holds every column a Table D record needs.
pub open spec fn spec_rec_f3_ok(hdr: Seq<Seq<char>>, row: Seq<Seq<char>>) -> bool {
    &&& spec_field(hdr, row, "Category"@) is Some
    &&& spec_field(hdr, row, "CategoryOfSequences_en"@) is Some
    &&& spec_field(hdr, row, "FXY1"@) is Some
    &&& spec_field(hdr, row, "FXY2"@) is Some
    &&& spec_field(hdr, row, "Status"@) is Some
}

/// An optional text field: empty or absent means none.
pub open spec fn spec_opt_text_matches(t: Option<String>, f: Option<Seq<char>>) -> bool {
    match f {
        Some(s) => if s.len() > 0 {
            t matches Some(ts) && ts@ == s
        } else {
            t is None
        },
        None => t is None,
    }
}

/// The record holds exactly what the row's columns say.
pub open spec fn spec_rec_f3_matches(rec: RecordF3, hdr: Seq<Seq<char>>, row: Seq<Seq<char>>) -> bool {
    &&& rec.Category@ == spec_field(hdr, row, "Category"@)->0
    &&& rec.CategoryOfSequences_en@ == spec_field(hdr, row, "CategoryOfSequences_en"@)->0
    &&& rec.FXY1@ == spec_field(hdr, row, "FXY1"@)->0
    &&& spec_opt_text_matches(rec.Title_en, spec_field(hdr, row, "Title_en"@))
    &&& spec_opt_text_matches(rec.SubTitle_en, spec_field(hdr, row, "SubTitle_en"@))
    &&& rec.FXY2@ == spec_field(hdr, row, "FXY2"@)->0
    &&& rec.Status@ == spec_field(hdr, row, "Status"@)->0
}

/// Reads one Table D catalogue row into a record, mapping columns by
/// header name; `None` when a needed column is absent.
pub fn record_f3_from_row(hdr: &Vec<String>, row: &Vec<String>) -> (r: Option<RecordF3>)
    ensures
        match r {
            Some(rec) => spec_rec_f3_ok(hdr.deep_view(), row.deep_view()) && spec_rec_f3_matches(
                rec,
                hdr.deep_view(),
                row.deep_view(),
            ),
            None => !spec_rec_f3_ok(hdr.deep_view(), row.deep_view()),
        },
{
    let category = match field_at(hdr, row, "Category") {
        Some(f) => f.clone(),
        None => {
            return None;
        },
    };
    let category_of = match field_at(hdr, row, "CategoryOfSequences_en") {
        Some(f) => f.clone(),
        None => {
            return None;
        },
    };
    let fxy1 = match field_at(hdr, row, "FXY1") {
        Some(f) => f.clone(),
        None => {
            return None;
        },
    };
    let title = match field_at(hdr, row, "Title_en") {
        Some(f) => if f.as_str().unicode_len() > 0 {
            Some(f.clone())
        } else {
            None
        },
        None => None,
    };
    let subtitle = match field_at(hdr, row, "SubTitle_en") {
        Some(f) => if f.as_str().unicode_len() > 0 {
            Some(f.clone())
        } else {
            None
        },
        None => None,
    };
    let fxy2 = match field_at(hdr, row, "FXY2") {
        Some(f) => f.clone(),
        None => {
            return None;
        },
    };
    let status = match field_at(hdr, row, "Status") {
        Some(f) => f.clone(),
        None => {
            return None;
        },
    };
    Some(
        RecordF3 {
            Category: category,
            CategoryOfSequences_en: category_of,
            FXY1: fxy1,
            Title_en: title,
            SubTitle_en: subtitle,
            FXY2: fxy2,
            Status: status,
        },
    )
}

/// The child entry an FXY2 kind digit selects.
pub open spec fn spec_child_of(f2: int, x: u8, y: u8) -> Descriptor {
    if f2 == 0 {
        Descriptor::Element(x, y)
    } else if f2 == 1 {
        Descriptor::Replication(x, y)
    } else if f2 == 2 {
        Descriptor::Operator(x, y)
    } else {
        Descriptor::Sequence(x, y)
    }
}

/// The key and child a Table D row supplies, when the whole row parses:
/// the parent must be a sequence (kind digit 3) and the child kind a known
/// one.
pub open spec fn spec_row_f3(hdr: Seq<Seq<char>>, row: Seq<Seq<char>>) -> Option<(u16, Descriptor)> {
    if !spec_rec_f3_ok(hdr, row) {
        None
    } else {
        let fxy1 = spec_field(hdr, row, "FXY1"@)->0;
        let fxy2 = spec_field(hdr, row, "FXY2"@)->0;
        if spec_fxy_f(fxy1) != Some(3int) {
            None
        } else {
            match (spec_fxy(fxy1), spec_fxy_f(fxy2), spec_fxy(fxy2)) {
                (Some((x, y)), Some(f2), Some((x2, y2))) => if 0 <= f2 <= 3 {
                    Some((spec_key(x, y), spec_child_of(f2, x2, y2)))
                } else {
                    None
                },
                _ => None,
            }
        }
    }
}

/// The children that the rows before `upto` give to sequence `k`, in row
/// order; row 0 is the header.
pub open spec fn spec_children(
    hdr: Seq<Seq<char>>,
    rows: Seq<Seq<Seq<char>>>,
    upto: int,
    k: u16,
) -> Seq<Descriptor>
    decreases upto,
{
    if upto <= 1 {
        Seq::empty()
    } else {
        let prev = spec_children(hdr, rows, upto - 1, k);
        match spec_row_f3(hdr, rows[upto - 1]) {
            Some((kk, d)) => if kk == k {
                prev.push(d)
            } else {
                prev
            },
            None => prev,
        }
    }
}

/// The first row before `upto` whose key is `k`; row 0 is the header.
pub open spec fn spec_first_f3_row(
    hdr: Seq<Seq<char>>,
    rows: Seq<Seq<Seq<char>>>,
    upto: int,
    k: u16,
) -> Option<int>
    decreases upto,
{
    if upto <= 1 {
        None
    } else {
        match spec_first_f3_row(hdr, rows, upto - 1, k) {
            Some(i) => Some(i),
            None => if (spec_row_f3(hdr, rows[upto - 1]) matches Some((kk, _)) && kk == k) {
                Some(upto - 1)
            } else {
                None
            },
        }
    }
}

/// A sequence key no row before `upto` supplies has no children there.
proof fn lemma_children_empty(hdr: Seq<Seq<char>>, rows: Seq<Seq<Seq<char>>>, upto: int, k: u16)
    requires
        spec_first_f3_row(hdr, rows, upto, k) is None,
    ensures
        spec_children(hdr, rows, upto, k) == Seq::<Descriptor>::empty(),
    decreases upto,
{
    if upto > 1 {
        lemma_children_empty(hdr, rows, upto - 1, k);
    }
}

/// How a Table D load relates the table before to the table after: every
/// sequence some row supplies holds, in order, all the children this
/// file's rows give it, under the first such row's title; sequences never
/// seen leave their entries untouched.
pub open spec fn table_f3_loaded(
    before: Map<u16, F3>,
    after: Map<u16, F3>,
    rows: Seq<Seq<Seq<char>>>,
) -> bool {
    let hdr = rows[0];
    let n = rows.len() as int;
    &&& (forall|k: u16| #[trigger]
        after.contains_key(k) <==> before.contains_key(k) || spec_first_f3_row(hdr, rows, n, k)
            is Some)
    &&& (forall|k: u16| #[trigger]
        after.contains_key(k) ==> match spec_first_f3_row(hdr, rows, n, k) {
            Some(i) => after[k].descriptors@ == spec_children(hdr, rows, n, k)
                && spec_opt_text_matches(after[k].title, spec_field(hdr, rows[i], "Title_en"@)),
            None => before.contains_key(k) && after[k] == before[k],
        })
}

/// Merges the rows of one Table D file into a table; rows with the same
/// parent aggregate in order, replacing whatever an earlier file gave that
/// parent; rows that do not parse are skipped.
fn load_rows_f3(t: &mut TableF3, rows: &Vec<Vec<String>>)
    ensures
        table_f3_loaded(old(t)@, final(t)@, rows.deep_view()),
{
    let ghost r_all = rows.deep_view();
    let ghost h = r_all[0];
    if rows.len() == 0 {
        return ;
    }
    let mut seen: HashMap<u16, bool> = HashMap::new();
    let mut i: usize = 1;
    while i < rows.len()
        invariant
            1 <= i <= r_all.len(),
            r_all == rows.deep_view(),
            r_all.len() == rows@.len(),
            h == r_all[0],
            forall|k: u16| #[trigger]
                seen@.contains_key(k) <==> spec_first_f3_row(h, r_all, i as int, k) is Some,
            forall|k: u16| #[trigger]
                t@.contains_key(k) <==> old(t)@.contains_key(k) || spec_first_f3_row(
                    h,
                    r_all,
                    i as int,
                    k,
                ) is Some,
            forall|k: u16| #[trigger]
                t@.contains_key(k) ==> match spec_first_f3_row(h, r_all, i as int, k) {
                    Some(m) => t@[k].descriptors@ == spec_children(h, r_all, i as int, k)
                        && spec_opt_text_matches(
                        t@[k].title,
                        spec_field(h, r_all[m], "Title_en"@),
                    ),
                    None => old(t)@.contains_key(k) && t@[k] == old(t)@[k],
                },
        decreases r_all.len() - i,
    {
        proof {
            assert(rows.deep_view()[i as int] == rows@[i as int].deep_view());
            assert(rows.deep_view()[0] == rows@[0].deep_view());
        }
        let hdr = &rows[0];
        let row = &rows[i];
        let ghost row_i = spec_row_f3(h, r_all[i as int]);
        match record_f3_from_row(hdr, row) {
            Some(rec) => {
                match sequence_child_from_record(&rec) {
                    Some((x, y, d)) => {
                        proof {
                            assert(row_i == Some((spec_key(x, y), d)));
                        }
                        let key: u16 = 256 * (x as u16) + (y as u16);
                        if seen.contains_key(&key) {
                            match t.remove(&key) {
                                Some(f3) => {
                                    let F3 { mut descriptors, title } = f3;
                                    descriptors.push(d);
                                    t.insert(key, F3 { descriptors, title });
                                },
                                None => {
                                    proof {
                                        assert(false);
                                    }
                                },
                            }
                        } else {
                            let mut ds: Vec<Descriptor> = Vec::new();
                            ds.push(d);
                            proof {
                                lemma_children_empty(h, r_all, i as int, key);
                            }
                            t.insert(key, F3 { descriptors: ds, title: rec.Title_en });
                            seen.insert(key, true);
                        }
                    },
                    None => {
                        proof {
                            assert(row_i is None);
                        }
                    },
                }
            },
            None => {
                proof {
                    assert(row_i is None);
                }
            },
        }
        i = i + 1;
    }
}

/// Turns a Table D record into its parent key and child entry; `None` when
/// the parent is not a sequence or an FXY string does not parse.
pub fn sequence_child_from_record(rec: &RecordF3) -> (r: Option<(u8, u8, Descriptor)>)
    ensures
        match r {
            Some((x, y, d)) => spec_fxy_f(rec.FXY1@) == Some(3int) && spec_fxy(rec.FXY1@) == Some(
                (x, y),
            ) && (spec_fxy_f(rec.FXY2@) matches Some(f2) && 0 <= f2 <= 3 && (spec_fxy(rec.FXY2@)
                matches Some((x2, y2)) && d == spec_child_of(f2, x2, y2))),
            None => spec_fxy_f(rec.FXY1@) != Some(3int) || spec_fxy(rec.FXY1@) is None || spec_fxy(
                rec.FXY2@,
            ) is None || (spec_fxy_f(rec.FXY2@) matches Some(f2) ==> !(0 <= f2 <= 3))
                || spec_fxy_f(rec.FXY2@) is None,
        },
{
    let f1 = match fxy_f(rec.FXY1.as_str()) {
        Some(f) => f,
        None => {
            return None;
        },
    };
    if f1 != 3 {
        return None;
    }
    let (x, y) = match fxy_parts(rec.FXY1.as_str()) {
        Some(p) => p,
        None => {
            return None;
        },
    };
    let f2 = match fxy_f(rec.FXY2.as_str()) {
        Some(f) => f,
        None => {
            return None;
        },
    };
    let (x2, y2) = match fxy_parts(rec.FXY2.as_str()) {
        Some(p) => p,
        None => {
            return None;
        },
    };
    let d = if f2 == 0 {
        Descriptor::Element(x2, y2)
    } else if f2 == 1 {
        Descriptor::Replication(x2, y2)
    } else if f2 == 2 {
        Descriptor::Operator(x2, y2)
    } else if f2 == 3 {
        Descriptor::Sequence(x2, y2)
    } else {
        return None;
    };
    Some((x, y, d))
}

/// Builds Table D from the rows of one catalogue file.
pub fn parse_table_f3(data: &[u8]) -> (t: TableF3)
    ensures
        table_f3_loaded(Map::empty(), t@, csv_rows_of(data@)),
{
    let mut t: TableF3 = HashMap::new();
    let rows = csv_rows(data);
    load_rows_f3(&mut t, &rows);
    t
}

} // verus!
