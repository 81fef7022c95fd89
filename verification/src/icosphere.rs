//! Icospheres stored as segment files, described by a metadata file.
//!
//! The metadata format (`metadata.ini`):
//! Each line reads `<first>-<second>=<x>,<y>,<z>`: the name of a segment
//! file, made of two dash-separated indices, and the centre of the segment.
//! Lines of another shape are skipped. A segment's global index is
//! `first * 16 + second`, where an index that is not a number counts as 0.
//! The entries are ordered by global index; entries with equal indices keep
//! their order in the file. The centre coordinates are kept as text: turning
//! them into floating-point numbers is left to the caller.
use vstd::prelude::*;
use std::io::Read;
use crate::text::{
    push_decimal, push_str, spec_decimal, chars_of, lines_of, parse_unsigned, spec_lines, spec_parse_unsigned, spec_split, split_chars,
    string_of, views,
};

verus! {

broadcast use {vstd::std_specs::hash::group_hash_axioms, vstd::seq_lib::group_seq_properties};

/// One segment described by the metadata file.
pub struct IcosphereMetadataEntry {
    /// The segment's name, the text before `=`.
    pub name: String,
    /// The three comma-separated coordinates of the segment's centre, as text.
    pub center: Vec<String>,
    /// `first * 16 + second`, from the two indices in the name.
    pub global_index: u32,
}

/// What an entry holds, as mathematical values.
pub struct MetadataEntryView {
    pub name: Seq<char>,
    pub center: Seq<Seq<char>>,
    pub global_index: u32,
}

impl View for IcosphereMetadataEntry {
    type V = MetadataEntryView;

    open spec fn view(&self) -> MetadataEntryView {
        MetadataEntryView {
            name: self.name@,
            center: self.center@.map_values(|c: String| c@),
            global_index: self.global_index,
        }
    }
}

/// The views of a sequence of entries.
pub open spec fn entry_views(v: Seq<IcosphereMetadataEntry>) -> Seq<MetadataEntryView> {
    v.map_values(|e: IcosphereMetadataEntry| e@)
}

/// One index of a segment name: its number, or 0 where it is not a `u32`.
pub open spec fn spec_index_part(p: Seq<char>) -> nat {
    match spec_parse_unsigned(p, u32::MAX as nat) {
        Some(v) => v,
        None => 0,
    }
}

/// The global index written by a segment name: `first * 16 + second`.
pub open spec fn spec_global_index(name: Seq<char>) -> int {
    let parts = spec_split(name, '-');
    (spec_index_part(parts[0]) * 16 + spec_index_part(parts[1])) as int
}

/// A line that has the shape `name=...` must have a name of at least two
/// dash-separated parts, whose global index fits a `u32`.
pub open spec fn line_is_well_formed(line: Seq<char>) -> bool {
    let split = spec_split(line, '=');
    split.len() == 2 ==> {
        &&& spec_split(split[0], '-').len() >= 2
        &&& spec_global_index(split[0]) <= u32::MAX
    }
}

/// Every line of `text` is well formed.
pub open spec fn metadata_well_formed(text: Seq<char>) -> bool {
    forall|i: int|
        0 <= i < spec_lines(text).len() ==> line_is_well_formed(#[trigger] spec_lines(text)[i])
}

/// The entry that a line describes, if it has the expected shape.
pub open spec fn spec_metadata_entry(line: Seq<char>) -> Option<MetadataEntryView> {
    let split = spec_split(line, '=');
    if split.len() != 2 {
        None
    } else {
        let center = spec_split(split[1], ',');
        if center.len() != 3 {
            None
        } else {
            Some(
                MetadataEntryView {
                    name: split[0],
                    center,
                    global_index: spec_global_index(split[0]) as u32,
                },
            )
        }
    }
}

/// The entries of `text`, in file order.
pub open spec fn spec_metadata_entries(text: Seq<char>) -> Seq<MetadataEntryView> {
    spec_lines(text).filter_map(|l: Seq<char>| spec_metadata_entry(l))
}

/// The entries of `s` whose global index is `k`, in order.
pub open spec fn with_index(s: Seq<MetadataEntryView>, k: u32) -> Seq<MetadataEntryView> {
    s.filter(|e: MetadataEntryView| e.global_index == k)
}

/// Ordered by global index.
pub open spec fn sorted_by_index(s: Seq<MetadataEntryView>) -> bool {
    forall|i: int, j: int|
        0 <= i < j < s.len() ==> #[trigger] s[i].global_index <= #[trigger] s[j].global_index
}

/// `output` is `input` sorted stably by global index: ordered, and for each
/// index the entries with it come in the order they had in `input`. This
/// determines `output` from `input`.
pub open spec fn is_stable_sort_by_index(
    input: Seq<MetadataEntryView>,
    output: Seq<MetadataEntryView>,
) -> bool {
    &&& sorted_by_index(output)
    &&& forall|k: u32| #[trigger] with_index(output, k) == with_index(input, k)
}

proof fn lemma_filter_none(s: Seq<MetadataEntryView>, k: u32)
    requires
        forall|i: int| 0 <= i < s.len() ==> (#[trigger] s[i]).global_index != k,
    ensures
        with_index(s, k) == Seq::<MetadataEntryView>::empty(),
{
    let pred = |e: MetadataEntryView| e.global_index == k;
    assert(s.all(|x: MetadataEntryView| !pred(x)));
    s.lemma_all_neg_filter_empty(pred);
}

/// Inserting an entry right after the last entry whose index is not greater
/// keeps a stable sort stable.
proof fn lemma_insert_stable(
    input: Seq<MetadataEntryView>,
    r: Seq<MetadataEntryView>,
    e: MetadataEntryView,
    p: int,
)
    requires
        is_stable_sort_by_index(input, r),
        0 <= p <= r.len(),
        forall|i: int| 0 <= i < p ==> (#[trigger] r[i]).global_index <= e.global_index,
        forall|i: int| p <= i < r.len() ==> (#[trigger] r[i]).global_index > e.global_index,
    ensures
        is_stable_sort_by_index(input.push(e), r.insert(p, e)),
{
    let r2 = r.insert(p, e);
    let a = r.subrange(0, p);
    let b = r.subrange(p, r.len() as int);
    assert(r2 =~= a + seq![e] + b);
    assert(r =~= a + b);
    assert forall|k: u32| #[trigger] with_index(r2, k) == with_index(input.push(e), k) by {
        let pred = |x: MetadataEntryView| x.global_index == k;
        Seq::filter_distributes_over_add(a + seq![e], b, pred);
        Seq::filter_distributes_over_add(a, seq![e], pred);
        Seq::filter_distributes_over_add(a, b, pred);
        input.lemma_filter_push(e, pred);
        a.lemma_filter_push(e, pred);
        assert(a + seq![e] =~= a.push(e));
        assert(with_index(r, k) == with_index(input, k));
        if k == e.global_index {
            lemma_filter_none(b, k);
            assert(with_index(b, k) =~= Seq::<MetadataEntryView>::empty());
            assert(with_index(r2, k) =~= with_index(a, k).push(e));
            assert(with_index(r, k) =~= with_index(a, k));
        } else {
            assert(with_index(r2, k) =~= with_index(a, k) + with_index(b, k));
        }
    }
    assert forall|i: int, j: int| 0 <= i < j < r2.len() implies #[trigger] r2[i].global_index
        <= #[trigger] r2[j].global_index by {
        if j < p {
            assert(r2[i] == r[i] && r2[j] == r[j]);
        } else if j == p {
            assert(r2[i] == r[i]);
        } else if i < p {
            assert(r2[i] == r[i] && r2[j] == r[j - 1]);
        } else if i == p {
            assert(r2[j] == r[j - 1]);
        } else {
            assert(r2[i] == r[i - 1] && r2[j] == r[j - 1]);
        }
    }
}

/// Reads one index of a segment name: its number, or 0 where it is not a `u32`.
fn index_part(p: &Vec<char>) -> (v: u64)
    ensures
        v as nat == spec_index_part(p@),
        v <= u32::MAX,
{
    match parse_unsigned(p, u32::MAX as u64) {
        Some(v) => v,
        None => 0,
    }
}

/// Turns each character vector into a `String`.
fn strings_of(parts: &Vec<Vec<char>>) -> (strings: Vec<String>)
    ensures
        strings@.map_values(|c: String| c@) == views(parts@),
{
    let mut strings: Vec<String> = Vec::new();
    let mut i: usize = 0;
    while i < parts.len()
        invariant
            i <= parts@.len(),
            strings@.map_values(|c: String| c@) == views(parts@).take(i as int),
        decreases parts@.len() - i,
    {
        let s = string_of(&parts[i]);
        let ghost old_strings = strings@;
        strings.push(s);
        proof {
            assert(strings@.map_values(|c: String| c@) =~= old_strings.map_values(|c: String| c@).push(
                parts@[i as int]@,
            ));
            assert(views(parts@).take(i + 1) =~= views(parts@).take(i as int).push(
                parts@[i as int]@,
            ));
        }
        i = i + 1;
    }
    assert(views(parts@).take(i as int) =~= views(parts@));
    strings
}

/// Reads one line of the metadata file: the entry it describes, or `None`
/// where it does not have the shape `name=x,y,z`.
pub fn parse_metadata_line(line: &Vec<char>) -> (entry: Option<IcosphereMetadataEntry>)
    requires
        line_is_well_formed(line@),
    ensures
        match entry {
            Some(e) => spec_metadata_entry(line@) == Some(e@),
            None => spec_metadata_entry(line@) is None,
        },
{
    let split = split_chars(line, '=');
    if split.len() != 2 {
        return None;
    }
    assert(split@[0]@ == spec_split(line@, '=')[0]);
    assert(split@[1]@ == spec_split(line@, '=')[1]);
    let index_parts = split_chars(&split[0], '-');
    assert(index_parts@[0]@ == spec_split(split@[0]@, '-')[0]);
    assert(index_parts@[1]@ == spec_split(split@[0]@, '-')[1]);
    let first = index_part(&index_parts[0]);
    let second = index_part(&index_parts[1]);
    let global_index = (first * 16 + second) as u32;
    let center_parts = split_chars(&split[1], ',');
    if center_parts.len() != 3 {
        return None;
    }
    let name = string_of(&split[0]);
    let center = strings_of(&center_parts);
    let entry = IcosphereMetadataEntry { name, center, global_index };
    assert(entry@ == spec_metadata_entry(line@)->0);
    Some(entry)
}

/// Whether one line is well formed.
pub fn metadata_line_is_well_formed(line: &Vec<char>) -> (ok: bool)
    ensures
        ok == line_is_well_formed(line@),
{
    let split = split_chars(line, '=');
    if split.len() != 2 {
        return true;
    }
    assert(split@[0]@ == spec_split(line@, '=')[0]);
    let index_parts = split_chars(&split[0], '-');
    if index_parts.len() < 2 {
        return false;
    }
    assert(index_parts@[0]@ == spec_split(split@[0]@, '-')[0]);
    assert(index_parts@[1]@ == spec_split(split@[0]@, '-')[1]);
    let first = index_part(&index_parts[0]);
    let second = index_part(&index_parts[1]);
    first * 16 + second <= u32::MAX as u64
}

/// Whether every line of the metadata text is well formed, which
/// `parse_icosphere_metadata` requires.
pub fn metadata_is_well_formed(text: &str) -> (ok: bool)
    ensures
        ok == metadata_well_formed(text@),
{
    let chars = chars_of(text);
    let lines = lines_of(&chars);
    let mut i: usize = 0;
    while i < lines.len()
        invariant
            i <= lines@.len(),
            views(lines@) == spec_lines(text@),
            forall|j: int| 0 <= j < i ==> line_is_well_formed(#[trigger] spec_lines(text@)[j]),
        decreases lines@.len() - i,
    {
        assert(lines@[i as int]@ == spec_lines(text@)[i as int]);
        if !metadata_line_is_well_formed(&lines[i]) {
            return false;
        }
        i = i + 1;
    }
    true
}

/// Reads the metadata file: its entries, ordered stably by global index.
pub fn parse_icosphere_metadata(text: &str) -> (entries: Vec<IcosphereMetadataEntry>)
    requires
        metadata_well_formed(text@),
    ensures
        is_stable_sort_by_index(spec_metadata_entries(text@), entry_views(entries@)),
{
    let chars = chars_of(text);
    let lines = lines_of(&chars);
    let ghost f = |l: Seq<char>| spec_metadata_entry(l);
    let ghost all_lines = spec_lines(text@);
    let mut entries: Vec<IcosphereMetadataEntry> = Vec::new();
    let mut i: usize = 0;
    proof {
        assert(all_lines.take(0) =~= Seq::<Seq<char>>::empty());
        assert forall|k: u32| #[trigger]
            with_index(entry_views(entries@), k) == with_index(
                all_lines.take(0).filter_map(f),
                k,
            ) by {
            assert(entry_views(entries@) =~= all_lines.take(0).filter_map(f));
        }
    }
    while i < lines.len()
        invariant
            i <= lines@.len(),
            views(lines@) == all_lines,
            all_lines == spec_lines(text@),
            metadata_well_formed(text@),
            f == (|l: Seq<char>| spec_metadata_entry(l)),
            is_stable_sort_by_index(all_lines.take(i as int).filter_map(f), entry_views(entries@)),
        decreases lines@.len() - i,
    {
        assert(lines@[i as int]@ == all_lines[i as int]);
        assert(line_is_well_formed(all_lines[i as int]));
        let parsed = parse_metadata_line(&lines[i]);
        proof {
            all_lines.lemma_filter_map_take_succ(f, i as int);
        }
        match parsed {
            Some(e) => {
                let mut p = entries.len();
                while p > 0 && entries[p - 1].global_index > e.global_index
                    invariant
                        p <= entries@.len(),
                        forall|j: int|
                            p <= j < entries@.len() ==> (#[trigger] entries@[j]).global_index
                                > e.global_index,
                    decreases p,
                {
                    p = p - 1;
                }
                let ghost before = entry_views(entries@);
                proof {
                    assert forall|j: int| 0 <= j < p implies (#[trigger] before[j]).global_index
                        <= e.global_index by {
                        if p > 0 {
                            assert(before[p - 1].global_index <= e.global_index);
                            assert(sorted_by_index(before));
                            if j < p - 1 {
                                assert(before[j].global_index <= before[p - 1].global_index);
                            }
                        }
                    }
                    assert forall|j: int| p <= j < before.len() implies (#[trigger] before[j]).global_index
                        > e.global_index by {
                        assert(before[j] == entries@[j]@);
                    }
                    lemma_insert_stable(
                        all_lines.take(i as int).filter_map(f),
                        before,
                        e@,
                        p as int,
                    );
                }
                entries.insert(p, e);
                proof {
                    assert(entry_views(entries@) =~= before.insert(p as int, e@));
                    assert(all_lines.take(i + 1).filter_map(f) =~= all_lines.take(
                        i as int,
                    ).filter_map(f).push(e@));
                }
            },
            None => {
                assert(all_lines.take(i + 1).filter_map(f) =~= all_lines.take(
                    i as int,
                ).filter_map(f));
            },
        }
        i = i + 1;
    }
    assert(all_lines.take(i as int) =~= all_lines);
    entries
}

// ---------------------------------------------------------------------------
// Files and drawing
// ---------------------------------------------------------------------------

/// The path of the metadata file of the icosphere stored in `dir_path`.
pub open spec fn spec_metadata_path(dir_path: Seq<char>) -> Seq<char> {
    dir_path + "/metadata.ini"@
}

/// Builds the path of the metadata file of the icosphere stored in `dir_path`.
pub fn metadata_path(dir_path: &str) -> (path: String)
    ensures
        path@ == spec_metadata_path(dir_path@),
{
    let mut chars: Vec<char> = Vec::new();
    push_str(&mut chars, dir_path);
    push_str(&mut chars, "/metadata.ini");
    string_of(&chars)
}

/// The path of the file holding segment `name` at `level`:
/// `<dir>/<name>.l<level>.raw`.
pub open spec fn spec_segment_file_path(dir_path: Seq<char>, name: Seq<char>, level: u8) -> Seq<char> {
    dir_path + "/"@ + name + ".l"@ + spec_decimal(level as nat) + ".raw"@
}

/// Builds the path of the file holding segment `name` at `level`.
pub fn segment_file_path(dir_path: &str, name: &str, level: u8) -> (path: String)
    ensures
        path@ == spec_segment_file_path(dir_path@, name@, level),
{
    let mut chars: Vec<char> = Vec::new();
    push_str(&mut chars, dir_path);
    push_str(&mut chars, "/");
    push_str(&mut chars, name);
    push_str(&mut chars, ".l");
    push_decimal(level as u64, &mut chars);
    push_str(&mut chars, ".raw");
    assert(chars@ =~= spec_segment_file_path(dir_path@, name@, level));
    string_of(&chars)
}

/// What decompressing `data` as a Brotli stream gives: `None` where it is not
/// a complete, valid stream.
pub uninterp spec fn brotli_decompressed(data: Seq<u8>) -> Option<Seq<u8>>;

/// Decompresses `data` with `brotli::Decompressor` (a 40960-byte buffer),
/// reading it to the end; a read error gives `None`. The result is named,
/// not spelled out.
#[verifier::external_body]
fn brotli_decompress(data: &[u8]) -> (r: Option<Vec<u8>>)
    ensures
        r is Some <==> brotli_decompressed(data@) is Some,
        r matches Some(d) ==> brotli_decompressed(data@) == Some(d@),
{
    let mut stream = brotli::Decompressor::new(data, 40960);
    let mut decompressed = Vec::new();
    match stream.read_to_end(&mut decompressed) {
        Ok(_) => Some(decompressed),
        Err(_) => None,
    }
}

/// Decompresses the contents of a segment file: the vertex data of the
/// segment, or `None` where the file is not a valid Brotli stream.
pub fn decompress_segment(compressed: &Vec<u8>) -> (r: Option<Vec<u8>>)
    ensures
        r is Some <==> brotli_decompressed(compressed@) is Some,
        r matches Some(d) ==> brotli_decompressed(compressed@) == Some(d@),
{
    brotli_decompress(compressed.as_slice())
}

/// The level a segment is drawn at, from its distance and the icosphere's
/// two thresholds (the nearer first): 3 nearer than the first, else 2 nearer
/// than the second, else 1. Distances and thresholds are keys ordered as the
/// lengths they stand for.
pub open spec fn spec_level_for_thresholds(distance: u64, near: u64, far: u64) -> u8 {
    if distance < near {
        3
    } else if distance < far {
        2
    } else {
        1
    }
}

/// Law: the most detailed level (3) is drawn exactly below the first
/// threshold; level 2 exactly at or beyond it but below the second; level 1
/// everywhere else. The level never rises with the distance.
pub proof fn lemma_level_for_thresholds(distance: u64, near: u64, far: u64, farther: u64)
    ensures
        spec_level_for_thresholds(distance, near, far) == 3 <==> distance < near,
        spec_level_for_thresholds(distance, near, far) == 2 <==> near <= distance && distance < far,
        spec_level_for_thresholds(distance, near, far) == 1 <==> near <= distance && far <= distance,
        distance <= farther ==> spec_level_for_thresholds(farther, near, far)
            <= spec_level_for_thresholds(distance, near, far),
{
}

/// The level a segment at `distance` is drawn at, given the icosphere's
/// thresholds, of which there must be at least two.
pub fn level_for_thresholds(distance: u64, thresholds: &Vec<u64>) -> (level: u8)
    requires
        thresholds@.len() >= 2,
    ensures
        level == spec_level_for_thresholds(distance, thresholds@[0], thresholds@[1]),
{
    let mut level: u8 = 1;
    if distance < thresholds[1] {
        level = 2;
    }
    if distance < thresholds[0] {
        level = 3;
    }
    level
}

/// What drawing a segment involves this frame.
#[derive(PartialEq, Eq, Structural, Clone, Copy, Debug)]
pub enum IcosphereDrawAction {
    /// Loaded at the wanted level: draw it.
    Draw,
    /// Loaded at another level: load it again at the wanted level.
    Reload,
    /// Not loaded: load it at the wanted level.
    Load,
}

/// What to do with a segment loaded at `loaded_level` (if it is) that
/// should be drawn at `level`.
pub open spec fn spec_draw_action(loaded_level: Option<u8>, level: u8) -> IcosphereDrawAction {
    match loaded_level {
        Some(l) => if l == level {
            IcosphereDrawAction::Draw
        } else {
            IcosphereDrawAction::Reload
        },
        None => IcosphereDrawAction::Load,
    }
}

/// What to do with a segment loaded at `loaded_level` (if it is) that
/// should be drawn at `level`. A segment is drawn only once it is loaded at
/// the wanted level.
pub fn draw_action(loaded_level: Option<u8>, level: u8) -> (action: IcosphereDrawAction)
    ensures
        action == spec_draw_action(loaded_level, level),
{
    match loaded_level {
        Some(l) => if l == level {
            IcosphereDrawAction::Draw
        } else {
            IcosphereDrawAction::Reload
        },
        None => IcosphereDrawAction::Load,
    }
}


/// The level at which the segment named `name` is loaded, if it is.
pub open spec fn loaded_level_of(loaded: Map<Seq<char>, u8>, name: Seq<char>) -> Option<u8> {
    if loaded.contains_key(name) {
        Some(loaded[name])
    } else {
        None
    }
}

/// The segment names, as text.
pub open spec fn name_views(names: Seq<String>) -> Seq<Seq<char>> {
    names.map_values(|s: String| s@)
}

/// The loaded levels after drawing, in order, the segments named `names`,
/// the one at position `k` being wanted at `levels[k]`: each is recorded at
/// its wanted level, a later segment of the same name over an earlier one.
pub open spec fn spec_after_draw(loaded: Map<Seq<char>, u8>, names: Seq<Seq<char>>, levels: Seq<u8>) -> Map<
    Seq<char>,
    u8,
>
    decreases names.len(),
{
    if names.len() == 0 {
        loaded
    } else {
        spec_after_draw(loaded, names.drop_last(), levels).insert(
            names.last(),
            levels[names.len() - 1],
        )
    }
}

/// A loaded segment: its name and the level it is loaded at.
pub struct LoadedSegment {
    pub name: String,
    pub level: u8,
}

/// No two loaded segments share a name.
pub open spec fn unique_segment_names(v: Seq<LoadedSegment>) -> bool {
    forall|i: int, j: int|
        0 <= i < j < v.len() ==> (#[trigger] v[i]).name@ != (#[trigger] v[j]).name@
}

/// The loaded levels by segment name.
pub open spec fn segment_map(v: Seq<LoadedSegment>) -> Map<Seq<char>, u8> {
    Map::new(
        |n: Seq<char>| exists|i: int| 0 <= i < v.len() && (#[trigger] v[i]).name@ == n,
        |n: Seq<char>| v[choose|i: int| 0 <= i < v.len() && (#[trigger] v[i]).name@ == n].level,
    )
}

proof fn lemma_segment_map_at(v: Seq<LoadedSegment>, p: int)
    requires
        unique_segment_names(v),
        0 <= p < v.len(),
    ensures
        segment_map(v).contains_key(v[p].name@),
        segment_map(v)[v[p].name@] == v[p].level,
{
    let n = v[p].name@;
    let i = choose|i: int| 0 <= i < v.len() && (#[trigger] v[i]).name@ == n;
    if i != p {
        if i < p {
            assert(v[i].name@ != v[p].name@);
        } else {
            assert(v[p].name@ != v[i].name@);
        }
    }
}

proof fn lemma_segment_map_update(v: Seq<LoadedSegment>, p: int, seg: LoadedSegment)
    requires
        unique_segment_names(v),
        0 <= p < v.len(),
        seg.name@ == v[p].name@,
    ensures
        unique_segment_names(v.update(p, seg)),
        segment_map(v.update(p, seg)) == segment_map(v).insert(seg.name@, seg.level),
{
    let w = v.update(p, seg);
    assert forall|i: int, j: int| 0 <= i < j < w.len() implies (#[trigger] w[i]).name@
        != (#[trigger] w[j]).name@ by {
        assert(w[i].name@ == v[i].name@ && w[j].name@ == v[j].name@);
    }
    let m = segment_map(v).insert(seg.name@, seg.level);
    assert forall|n: Seq<char>| #[trigger] segment_map(w).contains_key(n) <==> m.contains_key(n) by {
        if segment_map(w).contains_key(n) {
            let i = choose|i: int| 0 <= i < w.len() && (#[trigger] w[i]).name@ == n;
            assert(v[i].name@ == w[i].name@);
        }
        if segment_map(v).contains_key(n) {
            let i = choose|i: int| 0 <= i < v.len() && (#[trigger] v[i]).name@ == n;
            assert(w[i].name@ == v[i].name@);
        }
        assert(w[p].name@ == seg.name@);
    }
    assert forall|n: Seq<char>| #[trigger] segment_map(w).contains_key(n) implies segment_map(w)[n]
        == m[n] by {
        let i = choose|i: int| 0 <= i < w.len() && (#[trigger] w[i]).name@ == n;
        lemma_segment_map_at(w, i);
        if i != p {
            assert(w[i] == v[i]);
            lemma_segment_map_at(v, i);
        }
    }
    assert(segment_map(w) =~= m);
}

proof fn lemma_segment_map_push(v: Seq<LoadedSegment>, seg: LoadedSegment)
    requires
        unique_segment_names(v),
        forall|i: int| 0 <= i < v.len() ==> (#[trigger] v[i]).name@ != seg.name@,
    ensures
        unique_segment_names(v.push(seg)),
        segment_map(v.push(seg)) == segment_map(v).insert(seg.name@, seg.level),
{
    let w = v.push(seg);
    assert forall|i: int, j: int| 0 <= i < j < w.len() implies (#[trigger] w[i]).name@
        != (#[trigger] w[j]).name@ by {
        assert(w[i] == v[i]);
        if j < v.len() {
            assert(w[j] == v[j]);
        }
    }
    let m = segment_map(v).insert(seg.name@, seg.level);
    assert forall|n: Seq<char>| #[trigger] segment_map(w).contains_key(n) <==> m.contains_key(n) by {
        if segment_map(w).contains_key(n) {
            let i = choose|i: int| 0 <= i < w.len() && (#[trigger] w[i]).name@ == n;
            if i < v.len() {
                assert(v[i] == w[i]);
            }
        }
        if segment_map(v).contains_key(n) {
            let i = choose|i: int| 0 <= i < v.len() && (#[trigger] v[i]).name@ == n;
            assert(w[i] == v[i]);
        }
        assert(w[v.len() as int] == seg);
    }
    assert forall|n: Seq<char>| #[trigger] segment_map(w).contains_key(n) implies segment_map(w)[n]
        == m[n] by {
        let i = choose|i: int| 0 <= i < w.len() && (#[trigger] w[i]).name@ == n;
        lemma_segment_map_at(w, i);
        if i < v.len() {
            assert(w[i] == v[i]);
            lemma_segment_map_at(v, i);
        }
    }
    assert(segment_map(w) =~= m);
}

/// The position of the loaded segment named `name`, if there is one.
fn loaded_position(v: &Vec<LoadedSegment>, name: &String) -> (pos: Option<usize>)
    ensures
        match pos {
            Some(p) => p < v@.len() && v@[p as int].name@ == name@,
            None => forall|j: int| 0 <= j < v@.len() ==> v@[j].name@ != name@,
        },
{
    let mut i: usize = 0;
    while i < v.len()
        invariant
            i <= v@.len(),
            forall|j: int| 0 <= j < i ==> v@[j].name@ != name@,
        decreases v@.len() - i,
    {
        if v[i].name == *name {
            return Some(i);
        }
        i = i + 1;
    }
    None
}

/// An icosphere drawn from segment files: the segments that are loaded, by
/// name, each with the level it is loaded at.
pub struct Icosphere {
    loaded: Vec<LoadedSegment>,
}

impl View for Icosphere {
    type V = Map<Seq<char>, u8>;

    closed spec fn view(&self) -> Map<Seq<char>, u8> {
        segment_map(self.loaded@)
    }
}

impl Icosphere {
    #[verifier::type_invariant]
    closed spec fn wf(self) -> bool {
        unique_segment_names(self.loaded@)
    }

    /// No segment loaded.
    pub fn new() -> (segments: Self)
        ensures
            segments@ == Map::<Seq<char>, u8>::empty(),
    {
        let r = Icosphere { loaded: Vec::new() };
        assert(r@ =~= Map::<Seq<char>, u8>::empty());
        r
    }

    /// One draw pass over the segments of the metadata, in order: the one at
    /// position `k` is named `names[k]` and wanted at `levels[k]`. Returns
    /// what happens to each segment, given what the segments before it left
    /// loaded; a segment loaded again or for the first time is recorded at
    /// its wanted level.
    pub fn draw(&mut self, names: &Vec<String>, levels: &Vec<u8>) -> (actions: Vec<IcosphereDrawAction>)
        requires
            levels@.len() == names@.len(),
        ensures
            actions@.len() == names@.len(),
            forall|k: int|
                0 <= k < names@.len() ==> #[trigger] actions@[k] == spec_draw_action(
                    loaded_level_of(
                        spec_after_draw(old(self)@, name_views(names@).take(k), levels@),
                        names@[k]@,
                    ),
                    levels@[k],
                ),
            final(self)@ == spec_after_draw(old(self)@, name_views(names@), levels@),
    {
        proof {
            use_type_invariant(&*self);
        }
        let ghost start = self@;
        let ghost nv = name_views(names@);
        let mut loaded: Vec<LoadedSegment> = Vec::new();
        std::mem::swap(&mut loaded, &mut self.loaded);
        let mut actions: Vec<IcosphereDrawAction> = Vec::new();
        let mut k: usize = 0;
        while k < names.len()
            invariant
                k <= names@.len(),
                levels@.len() == names@.len(),
                nv == name_views(names@),
                unique_segment_names(loaded@),
                actions@.len() == k,
                forall|j: int|
                    0 <= j < k ==> #[trigger] actions@[j] == spec_draw_action(
                        loaded_level_of(spec_after_draw(start, nv.take(j), levels@), names@[j]@),
                        levels@[j],
                    ),
                segment_map(loaded@) == spec_after_draw(start, nv.take(k as int), levels@),
            decreases names.len() - k,
        {
            let name = &names[k];
            let level = levels[k];
            let ghost before = loaded@;
            proof {
                assert(nv.take(k + 1).drop_last() == nv.take(k as int));
                assert(nv.take(k + 1).last() == name@);
            }
            match loaded_position(&loaded, name) {
                Some(p) => {
                    proof {
                        lemma_segment_map_at(before, p as int);
                    }
                    let current = loaded[p].level;
                    let action = draw_action(Some(current), level);
                    actions.push(action);
                    let seg = loaded.remove(p);
                    let updated = LoadedSegment { name: seg.name, level };
                    loaded.insert(p, updated);
                    proof {
                        assert(loaded@ =~= before.update(p as int, updated));
                        lemma_segment_map_update(before, p as int, updated);
                    }
                },
                None => {
                    proof {
                        assert(!segment_map(before).contains_key(name@));
                    }
                    let action = draw_action(None, level);
                    actions.push(action);
                    let seg = LoadedSegment { name: name.clone(), level };
                    loaded.push(seg);
                    proof {
                        lemma_segment_map_push(before, seg);
                    }
                },
            }
            k = k + 1;
        }
        proof {
            assert(nv.take(k as int) == nv);
        }
        std::mem::swap(&mut loaded, &mut self.loaded);
        actions
    }
}

/// Every listing of one segment name asks for the same level.
pub open spec fn segment_levels_agree(names: Seq<Seq<char>>, levels: Seq<u8>) -> bool {
    forall|i: int, j: int|
        0 <= i < names.len() && 0 <= j < names.len() && #[trigger] names[i] == #[trigger] names[j]
            ==> levels[i] == levels[j]
}

/// After a draw pass whose listings agree, every segment is loaded at its
/// wanted level.
proof fn lemma_after_draw_levels(loaded: Map<Seq<char>, u8>, names: Seq<Seq<char>>, levels: Seq<u8>)
    requires
        segment_levels_agree(names, levels),
        levels.len() >= names.len(),
    ensures
        forall|k: int|
            0 <= k < names.len() ==> spec_after_draw(loaded, names, levels).contains_key(
                #[trigger] names[k],
            ) && spec_after_draw(loaded, names, levels)[names[k]] == levels[k],
    decreases names.len(),
{
    if names.len() > 0 {
        let init = names.drop_last();
        assert forall|i: int, j: int|
            0 <= i < init.len() && 0 <= j < init.len() && #[trigger] init[i] == #[trigger] init[j]
                implies levels[i] == levels[j] by {
            assert(init[i] == names[i] && init[j] == names[j]);
        }
        lemma_after_draw_levels(loaded, init, levels);
        let n = names.len() - 1;
        assert forall|k: int| 0 <= k < names.len() implies spec_after_draw(
            loaded,
            names,
            levels,
        ).contains_key(#[trigger] names[k]) && spec_after_draw(loaded, names, levels)[names[k]]
            == levels[k] by {
            if k < n {
                assert(init[k] == names[k]);
                if names[k] == names[n] {
                    assert(levels[k] == levels[n]);
                }
            }
        }
    }
}

/// Drawing segments already loaded at their wanted levels changes nothing.
proof fn lemma_after_draw_settled(loaded: Map<Seq<char>, u8>, names: Seq<Seq<char>>, levels: Seq<u8>)
    requires
        levels.len() >= names.len(),
        forall|k: int|
            0 <= k < names.len() ==> loaded.contains_key(#[trigger] names[k]) && loaded[names[k]]
                == levels[k],
    ensures
        spec_after_draw(loaded, names, levels) == loaded,
    decreases names.len(),
{
    if names.len() > 0 {
        let init = names.drop_last();
        assert forall|k: int| 0 <= k < init.len() implies loaded.contains_key(#[trigger] init[k])
            && loaded[init[k]] == levels[k] by {
            assert(init[k] == names[k]);
        }
        lemma_after_draw_settled(loaded, init, levels);
        let n = names.len() - 1;
        assert(loaded.contains_key(names[n]));
        assert(loaded.insert(names[n], levels[n]) =~= loaded);
    }
}

/// Law: after a draw pass (whose listings of one segment name agree on its
/// level), a pass that wants the same levels draws every segment and
/// changes nothing.
pub proof fn lemma_second_pass_draws_all(
    loaded: Map<Seq<char>, u8>,
    names: Seq<Seq<char>>,
    levels: Seq<u8>,
    k: int,
)
    requires
        segment_levels_agree(names, levels),
        levels.len() == names.len(),
        0 <= k < names.len(),
    ensures
        ({
            let after = spec_after_draw(loaded, names, levels);
            &&& spec_draw_action(
                loaded_level_of(spec_after_draw(after, names.take(k), levels), names[k]),
                levels[k],
            ) == IcosphereDrawAction::Draw
            &&& spec_after_draw(after, names, levels) == after
        }),
{
    let after = spec_after_draw(loaded, names, levels);
    lemma_after_draw_levels(loaded, names, levels);
    lemma_after_draw_settled(after, names, levels);
    let prefix = names.take(k);
    assert forall|j: int| 0 <= j < prefix.len() implies after.contains_key(#[trigger] prefix[j])
        && after[prefix[j]] == levels[j] by {
        assert(prefix[j] == names[j]);
    }
    lemma_after_draw_settled(after, prefix, levels);
}

} // verus!
