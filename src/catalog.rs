//! The device catalog: the ordered list of devices that the enumeration
//! tool's report describes.
use crate::header::{header_fields, header_line, lemma_header_fields_of_line, no_parens, HeaderPattern};
use crate::text::{
    first_sep_at, lemma_pieces_join, lemma_pieces_split, lemma_pieces_whole, pieces, trim_end_spec,
    trim_spec, trim_start_spec, trimmed_lines, trimmed_lines_spec,
};
use crate::number::{decimal, decimal_spec};
use vstd::prelude::*;
use vstd::utf8::{decode_utf8, valid_utf8};

verus! {

/// A capture device as the enumeration tool reports it.
pub struct Device {
    /// The stable identifier that selects the device.
    pub id: String,
    /// The human-readable name.
    pub name: String,
    /// The path through which the device is opened.
    pub path: String,
}

/// The contents of a [`Device`].
pub ghost struct DeviceView {
    pub id: Seq<char>,
    pub name: Seq<char>,
    pub path: Seq<char>,
}

impl View for Device {
    type V = DeviceView;

    open spec fn view(&self) -> DeviceView {
        DeviceView { id: self.id@, name: self.name@, path: self.path@ }
    }
}

/// The device that one block of trimmed lines describes: a header line
/// `name (id):` followed by at least one path line, of which the first is
/// the device's path.
pub open spec fn block_device(block: Seq<Seq<char>>) -> Option<DeviceView> {
    if block.len() >= 2 {
        match header_fields(block[0]) {
            Some((name, id)) => Some(DeviceView { id, name, path: block[1] }),
            None => None,
        }
    } else {
        None
    }
}

/// The devices that a sequence of blocks describes, in block order.
pub open spec fn devices_of_blocks(blocks: Seq<Seq<Seq<char>>>) -> Seq<DeviceView>
    decreases blocks.len(),
{
    if blocks.len() == 0 {
        seq![]
    } else {
        let before = devices_of_blocks(blocks.drop_last());
        match block_device(blocks.last()) {
            Some(d) => before.push(d),
            None => before,
        }
    }
}

/// The blocks of a report: its trimmed lines, grouped at empty lines.
pub open spec fn blocks_spec(text: Seq<char>) -> Seq<Seq<Seq<char>>> {
    pieces(trimmed_lines_spec(text), Seq::<char>::empty())
}

/// The catalog that a report describes.
pub open spec fn catalog_spec(text: Seq<char>) -> Seq<DeviceView> {
    devices_of_blocks(blocks_spec(text))
}

/// A block whose first line is the header `name (id):`, for a name and an
/// identifier without parentheses, and which has at least one path line,
/// describes exactly one device: that name and identifier, and the first
/// path line as its path.
pub proof fn lemma_block_with_header(name: Seq<char>, id: Seq<char>, block: Seq<Seq<char>>)
    requires
        no_parens(name),
        no_parens(id),
        block.len() >= 2,
        block[0] == header_line(name, id),
    ensures
        devices_of_blocks(seq![block]) == seq![DeviceView { id, name, path: block[1] }],
{
    lemma_header_fields_of_line(name, id);
    let none = Seq::<Seq<Seq<char>>>::empty();
    assert(seq![block].drop_last() =~= none);
    assert(seq![block].last() == block);
    assert(devices_of_blocks(none) == Seq::<DeviceView>::empty());
    assert(block_device(block) == Some(DeviceView { id, name, path: block[1] }));
    assert(devices_of_blocks(seq![block]) =~= seq![DeviceView { id, name, path: block[1] }]);
}

/// A block whose first line is no header describes no device, and the
/// blocks after it are read as if it were not there.
pub proof fn lemma_block_without_header(block: Seq<Seq<char>>, rest: Seq<Seq<Seq<char>>>)
    requires
        block.len() >= 1,
        header_fields(block[0]) is None,
    ensures
        block_device(block) is None,
        devices_of_blocks(seq![block] + rest) == devices_of_blocks(rest),
{
    lemma_skipped_block(block, rest);
}

/// A block of fewer than two lines describes no device, and the blocks after
/// it are read as if it were not there.
pub proof fn lemma_short_block(block: Seq<Seq<char>>, rest: Seq<Seq<Seq<char>>>)
    requires
        block.len() < 2,
    ensures
        block_device(block) is None,
        devices_of_blocks(seq![block] + rest) == devices_of_blocks(rest),
{
    lemma_skipped_block(block, rest);
}

proof fn lemma_skipped_block(block: Seq<Seq<char>>, rest: Seq<Seq<Seq<char>>>)
    requires
        block_device(block) is None,
    ensures
        devices_of_blocks(seq![block] + rest) == devices_of_blocks(rest),
{
    let none = Seq::<Seq<Seq<char>>>::empty();
    assert(seq![block].drop_last() =~= none);
    assert(seq![block].last() == block);
    assert(devices_of_blocks(none) == Seq::<DeviceView>::empty());
    lemma_devices_of_blocks_join(seq![block], rest);
    assert(devices_of_blocks(seq![block]) + devices_of_blocks(rest) =~= devices_of_blocks(rest));
}

/// The devices of consecutive runs of blocks are those of the first run
/// followed by those of the second: each block is read on its own, and block
/// order is kept.
pub proof fn lemma_devices_of_blocks_join(b1: Seq<Seq<Seq<char>>>, b2: Seq<Seq<Seq<char>>>)
    ensures
        devices_of_blocks(b1 + b2) == devices_of_blocks(b1) + devices_of_blocks(b2),
    decreases b2.len(),
{
    if b2.len() == 0 {
        assert(b1 + b2 =~= b1);
        assert(devices_of_blocks(b1) + devices_of_blocks(b2) =~= devices_of_blocks(b1));
    } else {
        assert((b1 + b2).drop_last() =~= b1 + b2.drop_last());
        assert((b1 + b2).last() == b2.last());
        lemma_devices_of_blocks_join(b1, b2.drop_last());
        match block_device(b2.last()) {
            Some(d) => {
                assert(devices_of_blocks(b1 + b2) =~= devices_of_blocks(b1) + devices_of_blocks(
                    b2,
                ));
            },
            None => {},
        }
    }
}

/// Two reports joined by a blank line describe the devices of the first
/// followed by those of the second.
pub proof fn lemma_catalog_join(t1: Seq<char>, t2: Seq<char>)
    ensures
        catalog_spec(t1 + seq!['\n', '\n'] + t2) == catalog_spec(t1) + catalog_spec(t2),
{
    let whole = t1 + seq!['\n', '\n'] + t2;
    let e = Seq::<char>::empty();
    let nl_t2 = seq!['\n'] + t2;
    assert(whole =~= t1 + seq!['\n'] + nl_t2);
    lemma_pieces_join(t1, nl_t2, '\n');
    assert(nl_t2 =~= e + seq!['\n'] + t2);
    lemma_pieces_join(e, t2, '\n');
    lemma_pieces_whole(e, '\n');
    let front = pieces(t1, '\n');
    let back = pieces(t2, '\n');
    assert(pieces(whole, '\n') =~= front + seq![e] + back);
    assert(trim_start_spec(e) == e);
    assert(trim_end_spec(e) == e);
    assert(trim_spec(e) == e);
    let l1 = trimmed_lines_spec(t1);
    let l2 = trimmed_lines_spec(t2);
    assert(trimmed_lines_spec(whole) =~= l1 + seq![e] + l2);
    lemma_pieces_join(l1, l2, e);
    lemma_devices_of_blocks_join(blocks_spec(t1), blocks_spec(t2));
}

/// The views of the devices of a catalog, in order.
pub open spec fn catalog_view(devices: Seq<Device>) -> Seq<DeviceView> {
    devices.map_values(|d: Device| d@)
}

/// The device described by the block `lines[start..end]`, if any.
fn read_block(pattern: &HeaderPattern, lines: &Vec<String>, start: usize, end: usize) -> (r:
    Option<Device>)
    requires
        start <= end <= lines@.len(),
        forall|i: int, j: int|
            0 <= i < lines@.len() && 0 <= j < lines@[i]@.len() ==> lines@[i]@[j] != '\n',
    ensures
        r matches Some(d) ==> block_device(
            lines@.map_values(|l: String| l@).subrange(start as int, end as int),
        ) == Some(d@),
        r is None ==> block_device(
            lines@.map_values(|l: String| l@).subrange(start as int, end as int),
        ) is None,
{
    let ghost block = lines@.map_values(|l: String| l@).subrange(start as int, end as int);
    if end - start < 2 {
        return None;
    }
    assert(block[0] == lines@[start as int]@);
    assert(block[1] == lines@[start + 1]@);
    match pattern.captures(lines[start].as_str()) {
        Some((name, id)) => Some(Device { id, name, path: lines[start + 1].clone() }),
        None => None,
    }
}

/// Parses the text report of the enumeration tool into its catalog: the
/// lines are trimmed and grouped at empty lines, and each block whose first
/// line is a header `name (id):` and which has a path line after it gives
/// one device, in block order.
pub fn parse_catalog(text: &str) -> (r: Vec<Device>)
    ensures
        catalog_view(r@) == catalog_spec(text@),
{
    let pattern = HeaderPattern::new();
    let lines = trimmed_lines(text);
    let ghost lv = lines@.map_values(|l: String| l@);
    let ghost empty = Seq::<char>::empty();
    let n = lines.len();
    let mut devices: Vec<Device> = Vec::new();
    let ghost mut done: Seq<Seq<Seq<char>>> = seq![];
    let mut start: usize = 0;
    let mut i: usize = 0;
    assert(lv.subrange(0, n as int) =~= lv);
    assert(done + pieces(lv, empty) =~= pieces(lv, empty));
    while i < n
        invariant
            n == lines@.len(),
            empty == Seq::<char>::empty(),
            lv == lines@.map_values(|l: String| l@),
            lv == trimmed_lines_spec(text@),
            forall|a: int, j: int|
                0 <= a < lines@.len() && 0 <= j < lines@[a]@.len() ==> lines@[a]@[j] != '\n',
            start <= i <= n,
            forall|j: int| start <= j < i ==> lv[j] != empty,
            done + pieces(lv.subrange(start as int, n as int), empty) == pieces(lv, empty),
            catalog_view(devices@) == devices_of_blocks(done),
        decreases n - i,
    {
        assert(lv[i as int] == lines@[i as int]@);
        let line_len = lines[i].as_str().unicode_len();
        assert(line_len == lv[i as int].len());
        if line_len == 0 {
            let ghost rest = lv.subrange(start as int, n as int);
            let ghost block = lv.subrange(start as int, i as int);
            proof {
                assert(lv[i as int] =~= empty);
                assert(first_sep_at(rest, empty, i - start));
                lemma_pieces_split(rest, empty, i - start);
                assert(rest.subrange(0, i - start) =~= block);
                assert(rest.subrange(i - start + 1, rest.len() as int) =~= lv.subrange(
                    i + 1,
                    n as int,
                ));
                assert(done.push(block).drop_last() =~= done);
                assert(done.push(block) + pieces(lv.subrange(i + 1, n as int), empty) =~= done
                    + pieces(rest, empty));
            }
            let found = read_block(&pattern, &lines, start, i);
            let ghost before = catalog_view(devices@);
            match found {
                Some(d) => {
                    devices.push(d);
                    assert(catalog_view(devices@) =~= before.push(d@));
                },
                None => {},
            }
            proof {
                done = done.push(block);
            }
            start = i + 1;
        } else {
            assert(lv[i as int].len() != empty.len());
        }
        i = i + 1;
    }
    let ghost rest = lv.subrange(start as int, n as int);
    proof {
        lemma_pieces_whole(rest, empty);
        assert(done.push(rest).drop_last() =~= done);
        assert(done + pieces(rest, empty) =~= done.push(rest));
    }
    let found = read_block(&pattern, &lines, start, n);
    let ghost before = catalog_view(devices@);
    match found {
        Some(d) => {
            devices.push(d);
            assert(catalog_view(devices@) =~= before.push(d@));
        },
        None => {},
    }
    devices
}

/// Why no catalog could be derived from the enumeration tool's output.
#[derive(Debug, Clone, Copy, PartialEq, Eq, Structural)]
pub enum CatalogError {
    /// The output is not valid UTF-8 text.
    MalformedOutput,
}

/// Relies on String::from_utf8: it succeeds exactly on valid UTF-8, and the
/// string then holds the characters that the bytes encode.
#[verifier::external_body]
fn utf8_text(bytes: Vec<u8>) -> (r: Option<String>)
    ensures
        r is Some <==> valid_utf8(bytes@),
        r matches Some(s) ==> s@ == decode_utf8(bytes@),
{
    String::from_utf8(bytes).ok()
}

/// Builds the catalog from what running the enumeration tool gave: `None`
/// when the tool could not be run, which yields an empty catalog, or its raw
/// output, which must be UTF-8 text.
pub fn catalog_from_output(output: Option<Vec<u8>>) -> (r: Result<Vec<Device>, CatalogError>)
    ensures
        output is None ==> (r matches Ok(c) && c@.len() == 0),
        output matches Some(b) ==> (r is Ok <==> valid_utf8(b@)),
        output matches Some(b) ==> (r matches Ok(c) ==> catalog_view(c@) == catalog_spec(
            decode_utf8(b@),
        )),
        r matches Err(e) ==> e == CatalogError::MalformedOutput,
{
    match output {
        None => Ok(Vec::new()),
        Some(bytes) => match utf8_text(bytes) {
            Some(text) => Ok(parse_catalog(text.as_str())),
            None => Err(CatalogError::MalformedOutput),
        },
    }
}

/// The first line of a listing of `n` devices.
pub open spec fn listing_header_spec(n: nat) -> Seq<char> {
    "Listing "@ + decimal_spec(n) + " devices:"@
}

/// The line that lists device `d`: its identifier, path and quoted name.
pub open spec fn listing_entry_spec(d: DeviceView) -> Seq<char> {
    "\t- V4L "@ + d.id + ": ("@ + d.path + ") \""@ + d.name + "\""@
}

/// The human-readable listing of a catalog: a line with the number of
/// devices, then one line per device in catalog order.
pub fn listing(catalog: &Vec<Device>) -> (r: Vec<String>)
    ensures
        r@.map_values(|l: String| l@) == seq![listing_header_spec(catalog@.len() as nat)]
            + catalog_view(catalog@).map_values(|d: DeviceView| listing_entry_spec(d)),
{
    let mut out: Vec<String> = Vec::new();
    let mut head = "Listing ".to_owned();
    let count = decimal(catalog.len() as u64);
    head.append(count.as_str());
    head.append(" devices:");
    out.push(head);
    let ghost entries = catalog_view(catalog@).map_values(|d: DeviceView| listing_entry_spec(d));
    assert(out@.map_values(|l: String| l@) =~= seq![listing_header_spec(catalog@.len() as nat)]
        + entries.subrange(0, 0));
    let mut i: usize = 0;
    while i < catalog.len()
        invariant
            i <= catalog@.len(),
            entries == catalog_view(catalog@).map_values(|d: DeviceView| listing_entry_spec(d)),
            out@.map_values(|l: String| l@) == seq![listing_header_spec(catalog@.len() as nat)]
                + entries.subrange(0, i as int),
        decreases catalog.len() - i,
    {
        let d = &catalog[i];
        let mut line = "\t- V4L ".to_owned();
        line.append(d.id.as_str());
        line.append(": (");
        line.append(d.path.as_str());
        line.append(") \"");
        line.append(d.name.as_str());
        line.append("\"");
        assert(line@ == entries[i as int]);
        let ghost before = out@.map_values(|l: String| l@);
        out.push(line);
        assert(out@.map_values(|l: String| l@) =~= before.push(line@));
        assert(entries.subrange(0, i + 1) =~= entries.subrange(0, i as int).push(line@));
        i = i + 1;
    }
    assert(entries.subrange(0, catalog@.len() as int) =~= entries);
    out
}

} // verus!
