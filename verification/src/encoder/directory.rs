//! The layout of an image file directory: which bytes a directory and the values of its
//! entries take in the file, and what can be read back from them.
//!
//! A directory is written behind the data that precedes it. The payloads that do not fit
//! an entry come first, in ascending tag order; then the number of entries, the entries in
//! ascending tag order, and a zero offset that a later directory may overwrite. The slot
//! that was reserved for the offset of this directory is overwritten last.

use vstd::prelude::*;
use crate::endian::le_bytes;
use crate::endian::le_value;
use crate::endian::lemma_le_bytes_len;
use crate::endian::lemma_le_round_trip;
use crate::endian::pow256;
use crate::endian::zeros;
use crate::encoder::writer::splice;

verus! {

/// One entry of a directory under construction: the code of its field type, the number of
/// its values, and their stored form.
pub struct DirectoryEntry {
    pub data_type: u16,
    pub count: u64,
    pub data: Vec<u8>,
}

/// What an entry holds.
pub struct EntryModel {
    pub field_type: u16,
    pub count: nat,
    pub data: Seq<u8>,
}

impl View for DirectoryEntry {
    type V = EntryModel;

    open spec fn view(&self) -> EntryModel {
        EntryModel { field_type: self.data_type, count: self.count as nat, data: self.data@ }
    }
}

/// The entries of a directory, by tag.
pub type Entries = Map<u16, EntryModel>;

/// What the entries of a directory under construction hold, by tag.
pub open spec fn entry_models(ifd: Map<u16, DirectoryEntry>) -> Entries {
    ifd.map_values(|e: DirectoryEntry| e@)
}

/// The field widths of a variant of the format, in bytes: that of an offset, which is
/// also that of the value count and of the value field of an entry, and that of the
/// number of entries of a directory.
pub struct Format {
    pub offset_width: nat,
    pub count_width: nat,
}

impl Format {
    /// The number of bytes of one entry: tag, field type, value count, and value or offset.
    pub open spec fn record_len(self) -> nat {
        4 + 2 * self.offset_width
    }

    /// Whether `offset` can be stored in an offset field.
    pub open spec fn holds_offset(self, offset: nat) -> bool {
        offset < pow256(self.offset_width)
    }
}

/// The tags of `tags` that are at least `from`, in ascending order.
pub open spec fn tags_from(tags: Set<u16>, from: int) -> Seq<u16>
    decreases 65536 - from,
{
    if from < 0 || from >= 65536 {
        Seq::empty()
    } else if tags.contains(from as u16) {
        seq![from as u16] + tags_from(tags, from + 1)
    } else {
        tags_from(tags, from + 1)
    }
}

/// The tags of `tags` in ascending order: the order in which a directory lists them.
pub open spec fn ordered_tags(tags: Set<u16>) -> Seq<u16> {
    tags_from(tags, 0)
}

/// Whether `s` is strictly ascending.
pub open spec fn strictly_ascending(s: Seq<u16>) -> bool {
    forall|i: int, j: int| 0 <= i < j < s.len() ==> s[i] < s[j]
}

/// `tags_from` lists exactly the tags from `from` on, each once, in ascending order.
pub proof fn lemma_tags_from(tags: Set<u16>, from: int)
    requires
        0 <= from,
    ensures
        strictly_ascending(tags_from(tags, from)),
        forall|i: int|
            0 <= i < tags_from(tags, from).len() ==> tags.contains(
                #[trigger] tags_from(tags, from)[i],
            ) && tags_from(tags, from)[i] >= from,
        forall|t: u16| tags.contains(t) && t >= from ==> tags_from(tags, from).contains(t),
    decreases 65536 - from,
{
    let s = tags_from(tags, from);
    if from < 65536 {
        let rest = tags_from(tags, from + 1);
        lemma_tags_from(tags, from + 1);
        if tags.contains(from as u16) {
            assert(s =~= seq![from as u16] + rest);
            assert forall|i: int, j: int| 0 <= i < j < s.len() implies s[i] < s[j] by {
                assert(s[j] == rest[j - 1]);
                if i > 0 {
                    assert(s[i] == rest[i - 1]);
                }
            }
            assert forall|i: int| 0 <= i < s.len() implies tags.contains(#[trigger] s[i]) && s[i]
                >= from by {
                if i > 0 {
                    assert(s[i] == rest[i - 1]);
                }
            }
            assert forall|t: u16| tags.contains(t) && t >= from implies s.contains(t) by {
                if t == from {
                    assert(s[0] == t);
                } else {
                    assert(rest.contains(t));
                    let k = choose|k: int| 0 <= k < rest.len() && rest[k] == t;
                    assert(s[k + 1] == t);
                }
            }
        } else {
            assert(s =~= rest);
            assert forall|t: u16| tags.contains(t) && t >= from implies s.contains(t) by {
                assert(t != from);
                assert(rest.contains(t));
            }
        }
    }
}

/// Whatever the order in which its entries were added, a directory lists its tags in
/// strictly ascending order, each tag of the directory once and no other.
pub proof fn lemma_ordered_tags(tags: Set<u16>)
    ensures
        strictly_ascending(ordered_tags(tags)),
        forall|t: u16| ordered_tags(tags).contains(t) <==> tags.contains(t),
{
    lemma_tags_from(tags, 0);
    let s = ordered_tags(tags);
    assert forall|t: u16| s.contains(t) implies tags.contains(t) by {
        let k = choose|k: int| 0 <= k < s.len() && s[k] == t;
        assert(tags.contains(s[k]));
    }
}

/// A strictly ascending sequence that lists exactly the tags of `tags` from `from` on is
/// `tags_from(tags, from)`.
pub proof fn lemma_ascending_is_tags_from(s: Seq<u16>, tags: Set<u16>, from: int)
    requires
        0 <= from,
        strictly_ascending(s),
        forall|i: int| 0 <= i < s.len() ==> tags.contains(#[trigger] s[i]) && s[i] >= from,
        forall|t: u16| tags.contains(t) && t >= from ==> s.contains(t),
    ensures
        s == tags_from(tags, from),
    decreases 65536 - from,
{
    if from >= 65536 {
        if s.len() > 0 {
            assert(s[0] >= from);
        }
        assert(s =~= tags_from(tags, from));
    } else if tags.contains(from as u16) {
        let t0 = from as u16;
        assert(s.contains(t0));
        let k = choose|k: int| 0 <= k < s.len() && s[k] == t0;
        if k > 0 {
            assert(s[0] < s[k]);
            assert(s[0] >= from);
        }
        let rest = s.drop_first();
        assert forall|i: int, j: int| 0 <= i < j < rest.len() implies rest[i] < rest[j] by {
            assert(rest[i] == s[i + 1]);
            assert(rest[j] == s[j + 1]);
        }
        assert forall|i: int| 0 <= i < rest.len() implies tags.contains(#[trigger] rest[i])
            && rest[i] >= from + 1 by {
            assert(rest[i] == s[i + 1]);
            assert(s[0] < s[i + 1]);
        }
        assert forall|t: u16| tags.contains(t) && t >= from + 1 implies rest.contains(t) by {
            assert(s.contains(t));
            let j = choose|j: int| 0 <= j < s.len() && s[j] == t;
            assert(j > 0);
            assert(rest[j - 1] == t);
        }
        lemma_ascending_is_tags_from(rest, tags, from + 1);
        assert(s =~= seq![t0] + rest);
    } else {
        assert forall|i: int| 0 <= i < s.len() implies tags.contains(#[trigger] s[i]) && s[i]
            >= from + 1 by {
            assert(s[i] != from);
        }
        lemma_ascending_is_tags_from(s, tags, from + 1);
    }
}

/// Whether the values of `e` are too long for the value field of an entry, so that they
/// are stored elsewhere and the entry holds their offset.
pub open spec fn is_external(e: EntryModel, f: Format) -> bool {
    e.data.len() > f.offset_width
}

/// The bytes that the values of `e` take outside the directory: all of them where they
/// are too long for the value field, none otherwise.
pub open spec fn external_payload(e: EntryModel, f: Format) -> Seq<u8> {
    if is_external(e, f) {
        e.data
    } else {
        Seq::empty()
    }
}

/// The payloads outside the directory of the entries with the tags `tags`, in that order.
pub open spec fn payloads(m: Entries, tags: Seq<u16>, f: Format) -> Seq<u8>
    decreases tags.len(),
{
    if tags.len() == 0 {
        Seq::empty()
    } else {
        payloads(m, tags.drop_last(), f) + external_payload(m[tags.last()], f)
    }
}

/// The value field of `e`: the values and zeros behind them where they fit the field,
/// else the offset `at` at which they are stored.
pub open spec fn value_field(e: EntryModel, at: nat, f: Format) -> Seq<u8> {
    if is_external(e, f) {
        le_bytes(at, f.offset_width)
    } else {
        e.data + zeros((f.offset_width - e.data.len()) as nat)
    }
}

/// The bytes of the entry `e` under `tag`, whose values are stored at `at` unless they
/// fit the value field.
pub open spec fn entry_record(tag: u16, e: EntryModel, at: nat, f: Format) -> Seq<u8> {
    le_bytes(tag as nat, 2) + le_bytes(e.field_type as nat, 2) + le_bytes(e.count, f.offset_width)
        + value_field(e, at, f)
}

/// The entries with the tags `tags`, in that order, where the payloads outside the
/// directory start at the offset `base`.
pub open spec fn table(m: Entries, tags: Seq<u16>, base: nat, f: Format) -> Seq<u8>
    decreases tags.len(),
{
    if tags.len() == 0 {
        Seq::empty()
    } else {
        table(m, tags.drop_last(), base, f) + entry_record(
            tags.last(),
            m[tags.last()],
            base + payloads(m, tags.drop_last(), f).len(),
            f,
        )
    }
}

/// The offset at which the directory itself starts, with the number of its entries, when
/// it is written behind `base` bytes.
pub open spec fn directory_offset(m: Entries, base: nat, f: Format) -> nat {
    base + payloads(m, ordered_tags(m.dom()), f).len()
}

/// Everything that writing the directory appends to a file of `base` bytes.
pub open spec fn directory_image(m: Entries, base: nat, f: Format) -> Seq<u8> {
    let tags = ordered_tags(m.dom());
    payloads(m, tags, f) + le_bytes(tags.len(), f.count_width) + table(m, tags, base, f) + zeros(
        f.offset_width,
    )
}

/// Whether the directory can be written behind `base` bytes: its offset fits an offset
/// field, and the number of its entries fits the count field.
pub open spec fn directory_fits(m: Entries, base: nat, f: Format) -> bool {
    &&& f.holds_offset(directory_offset(m, base, f))
    &&& ordered_tags(m.dom()).len() < pow256(f.count_width)
}

/// The file after the directory `m` was written behind the bytes `before` and the offset
/// of the directory was stored in the slot at `slot`.
pub open spec fn finished_file(before: Seq<u8>, slot: nat, m: Entries, f: Format) -> Seq<u8> {
    splice(
        before + directory_image(m, before.len(), f),
        slot,
        le_bytes(directory_offset(m, before.len(), f), f.offset_width),
    )
}

/// The offset of entry number `i` of the directory in the finished file.
pub open spec fn record_offset(m: Entries, base: nat, f: Format, i: nat) -> nat {
    directory_offset(m, base, f) + f.count_width + i * f.record_len()
}

/// The offset at which the values of entry number `i` are stored when they do not fit
/// the entry.
pub open spec fn payload_offset(m: Entries, base: nat, f: Format, i: nat) -> nat {
    base + payloads(m, ordered_tags(m.dom()).take(i as int), f).len()
}

/// What entry number `i` adds to the payloads and to the table of the entries before it.
pub proof fn lemma_take_next(m: Entries, tags: Seq<u16>, base: nat, f: Format, i: int)
    requires
        0 <= i < tags.len(),
    ensures
        payloads(m, tags.take(i + 1), f) == payloads(m, tags.take(i), f) + external_payload(
            m[tags[i]],
            f,
        ),
        table(m, tags.take(i + 1), base, f) == table(m, tags.take(i), base, f) + entry_record(
            tags[i],
            m[tags[i]],
            base + payloads(m, tags.take(i), f).len(),
            f,
        ),
{
    let next = tags.take(i + 1);
    assert(next.drop_last() =~= tags.take(i));
    assert(next.last() == tags[i]);
}

/// The payloads of the first `i` entries are the first bytes of the payloads of all.
pub proof fn lemma_payloads_prefix(m: Entries, tags: Seq<u16>, f: Format, i: int)
    requires
        0 <= i <= tags.len(),
    ensures
        payloads(m, tags.take(i), f).len() <= payloads(m, tags, f).len(),
        payloads(m, tags, f).subrange(0, payloads(m, tags.take(i), f).len() as int) == payloads(
            m,
            tags.take(i),
            f,
        ),
    decreases tags.len(),
{
    if i == tags.len() {
        assert(tags.take(i) =~= tags);
        assert(payloads(m, tags, f).subrange(0, payloads(m, tags, f).len() as int) =~= payloads(
            m,
            tags,
            f,
        ));
    } else {
        lemma_payloads_prefix(m, tags.drop_last(), f, i);
        assert(tags.drop_last().take(i) =~= tags.take(i));
        let head = payloads(m, tags.drop_last(), f);
        let part = payloads(m, tags.take(i), f);
        assert(payloads(m, tags, f).subrange(0, part.len() as int) =~= head.subrange(
            0,
            part.len() as int,
        ));
    }
}

/// Every entry takes the same number of bytes in the directory.
pub proof fn lemma_record_len(tag: u16, e: EntryModel, at: nat, f: Format)
    ensures
        value_field(e, at, f).len() == f.offset_width,
        entry_record(tag, e, at, f).len() == f.record_len(),
{
    lemma_le_bytes_len(tag as nat, 2);
    lemma_le_bytes_len(e.field_type as nat, 2);
    lemma_le_bytes_len(e.count, f.offset_width);
    lemma_le_bytes_len(at, f.offset_width);
}

/// The entries of a directory take the bytes of one entry times their number.
pub proof fn lemma_table_len(m: Entries, tags: Seq<u16>, base: nat, f: Format)
    ensures
        table(m, tags, base, f).len() == tags.len() * f.record_len(),
    decreases tags.len(),
{
    if tags.len() > 0 {
        lemma_table_len(m, tags.drop_last(), base, f);
        lemma_record_len(
            tags.last(),
            m[tags.last()],
            base + payloads(m, tags.drop_last(), f).len(),
            f,
        );
        assert((tags.len() - 1) * f.record_len() + f.record_len() == tags.len() * f.record_len())
            by (nonlinear_arith);
    }
}

/// Entry number `i` of a directory is the entry for the `i`-th tag in ascending order,
/// with the offset of its values behind the payloads of the entries before it.
pub proof fn lemma_table_record(m: Entries, tags: Seq<u16>, base: nat, f: Format, i: int)
    requires
        0 <= i < tags.len(),
    ensures
        (i + 1) * f.record_len() <= table(m, tags, base, f).len(),
        table(m, tags, base, f).subrange(i * f.record_len(), (i + 1) * f.record_len())
            == entry_record(
            tags[i],
            m[tags[i]],
            base + payloads(m, tags.take(i), f).len(),
            f,
        ),
    decreases tags.len(),
{
    let rl = f.record_len() as int;
    let head = tags.drop_last();
    let whole = table(m, tags, base, f);
    lemma_table_len(m, tags, base, f);
    lemma_table_len(m, head, base, f);
    assert((i + 1) * rl <= tags.len() * rl) by (nonlinear_arith)
        requires
            i + 1 <= tags.len(),
            rl >= 0,
    ;
    assert((i + 1) * rl == i * rl + rl) by (nonlinear_arith);
    let last = entry_record(tags.last(), m[tags.last()], base + payloads(m, head, f).len(), f);
    lemma_record_len(tags.last(), m[tags.last()], base + payloads(m, head, f).len(), f);
    if i == tags.len() - 1 {
        assert(tags.take(i) =~= head);
        assert(whole.subrange(i * rl, (i + 1) * rl) =~= last);
    } else {
        lemma_table_record(m, head, base, f, i);
        assert(head.take(i) =~= tags.take(i));
        assert((i + 1) * rl <= head.len() * rl) by (nonlinear_arith)
            requires
                i + 1 <= head.len(),
                rl >= 0,
        ;
        assert(whole.subrange(i * rl, (i + 1) * rl) =~= table(m, head, base, f).subrange(
            i * rl,
            (i + 1) * rl,
        ));
    }
}

/// The `len` bytes of `s` from position `from` on.
pub open spec fn slice(s: Seq<u8>, from: nat, len: nat) -> Seq<u8> {
    s.subrange(from as int, (from + len) as int)
}

/// The values of entry number `i` that do not fit the entry lie behind the payloads of
/// the entries before it.
pub proof fn lemma_payload_at(m: Entries, tags: Seq<u16>, f: Format, i: int)
    requires
        0 <= i < tags.len(),
        is_external(m[tags[i]], f),
    ensures
        payloads(m, tags.take(i), f).len() + m[tags[i]].data.len() <= payloads(m, tags, f).len(),
        slice(payloads(m, tags, f), payloads(m, tags.take(i), f).len(), m[tags[i]].data.len())
            == m[tags[i]].data,
{
    lemma_take_next(m, tags, 0, f, i);
    lemma_payloads_prefix(m, tags, f, i + 1);
    let all = payloads(m, tags, f);
    let next = payloads(m, tags.take(i + 1), f);
    let part = payloads(m, tags.take(i), f);
    let data = m[tags[i]].data;
    assert(next =~= part + data);
    assert(slice(all, part.len(), data.len()) =~= slice(
        all.subrange(0, next.len() as int),
        part.len(),
        data.len(),
    ));
    assert(slice(next, part.len(), data.len()) =~= data);
}

/// The finished file is the file before, with the slot overwritten, and the image of the
/// directory behind it.
pub proof fn lemma_finished_file(before: Seq<u8>, slot: nat, m: Entries, f: Format)
    requires
        slot + f.offset_width <= before.len(),
    ensures
        finished_file(before, slot, m, f).len() == before.len() + directory_image(
            m,
            before.len(),
            f,
        ).len(),
        slice(finished_file(before, slot, m, f), slot, f.offset_width) == le_bytes(
            directory_offset(m, before.len(), f),
            f.offset_width,
        ),
        slice(
            finished_file(before, slot, m, f),
            before.len(),
            directory_image(m, before.len(), f).len(),
        ) == directory_image(m, before.len(), f),
        forall|k: int|
            0 <= k < before.len() && !(slot <= k < slot + f.offset_width)
                ==> #[trigger] finished_file(before, slot, m, f)[k] == before[k],
{
    let image = directory_image(m, before.len(), f);
    let link = le_bytes(directory_offset(m, before.len(), f), f.offset_width);
    lemma_le_bytes_len(directory_offset(m, before.len(), f), f.offset_width);
    let file = finished_file(before, slot, m, f);
    assert(file.len() == before.len() + image.len());
    assert(slice(file, slot, f.offset_width) =~= link);
    assert(slice(file, before.len(), image.len()) =~= image);
}

/// The directory image is made of the payloads, the number of entries, the entries and
/// the zero offset, which lie one behind the other.
pub proof fn lemma_directory_image(m: Entries, base: nat, f: Format)
    ensures
        ({
            let tags = ordered_tags(m.dom());
            let image = directory_image(m, base, f);
            let p = payloads(m, tags, f).len();
            let t = tags.len() * f.record_len();
            &&& image.len() == p + f.count_width + t + f.offset_width
            &&& slice(image, 0, p) == payloads(m, tags, f)
            &&& slice(image, p, f.count_width) == le_bytes(tags.len(), f.count_width)
            &&& slice(image, p + f.count_width, t) == table(m, tags, base, f)
            &&& slice(image, p + f.count_width + t, f.offset_width) == zeros(f.offset_width)
        }),
{
    let tags = ordered_tags(m.dom());
    let image = directory_image(m, base, f);
    let p = payloads(m, tags, f).len();
    let t = tags.len() * f.record_len();
    lemma_le_bytes_len(tags.len(), f.count_width);
    lemma_table_len(m, tags, base, f);
    assert(slice(image, 0, p) =~= payloads(m, tags, f));
    assert(slice(image, p, f.count_width) =~= le_bytes(tags.len(), f.count_width));
    assert(slice(image, p + f.count_width, t) =~= table(m, tags, base, f));
    assert(slice(image, p + f.count_width + t, f.offset_width) =~= zeros(f.offset_width));
}

/// What is read from the slot that was reserved for the offset of a directory, once the
/// directory is finished, is the offset at which the directory begins with the number
/// of its entries.
pub proof fn lemma_directory_pointer(before: Seq<u8>, slot: nat, m: Entries, f: Format)
    requires
        slot + f.offset_width <= before.len(),
        directory_fits(m, before.len(), f),
    ensures
        ({
            let file = finished_file(before, slot, m, f);
            let at = le_value(slice(file, slot, f.offset_width));
            &&& at == directory_offset(m, before.len(), f)
            &&& at + f.count_width <= file.len()
            &&& slice(file, at, f.count_width) == le_bytes(
                ordered_tags(m.dom()).len(),
                f.count_width,
            )
            &&& le_value(slice(file, at, f.count_width)) == ordered_tags(m.dom()).len()
        }),
{
    let file = finished_file(before, slot, m, f);
    let image = directory_image(m, before.len(), f);
    let tags = ordered_tags(m.dom());
    let d = directory_offset(m, before.len(), f);
    let p = payloads(m, tags, f).len();
    lemma_finished_file(before, slot, m, f);
    lemma_directory_image(m, before.len(), f);
    lemma_le_round_trip(d, f.offset_width);
    lemma_le_round_trip(tags.len(), f.count_width);
    assert(slice(file, d, f.count_width) =~= slice(
        slice(file, before.len(), image.len()),
        p,
        f.count_width,
    ));
}

/// A slice of a slice is a slice.
pub proof fn lemma_slice_of_slice(s: Seq<u8>, a: nat, l: nat, b: nat, n: nat)
    requires
        a + l <= s.len(),
        b + n <= l,
    ensures
        slice(slice(s, a, l), b, n) == slice(s, a + b, n),
{
    assert(slice(slice(s, a, l), b, n) =~= slice(s, a + b, n));
}

/// The fields of an entry lie one behind the other: tag, field type, value count, and
/// value or offset.
pub proof fn lemma_record_fields(tag: u16, e: EntryModel, at: nat, f: Format)
    ensures
        slice(entry_record(tag, e, at, f), 0, 2) == le_bytes(tag as nat, 2),
        slice(entry_record(tag, e, at, f), 2, 2) == le_bytes(e.field_type as nat, 2),
        slice(entry_record(tag, e, at, f), 4, f.offset_width) == le_bytes(
            e.count,
            f.offset_width,
        ),
        slice(entry_record(tag, e, at, f), 4 + f.offset_width, f.offset_width) == value_field(
            e,
            at,
            f,
        ),
{
    let record = entry_record(tag, e, at, f);
    lemma_le_bytes_len(tag as nat, 2);
    lemma_le_bytes_len(e.field_type as nat, 2);
    lemma_le_bytes_len(e.count, f.offset_width);
    lemma_record_len(tag, e, at, f);
    assert(slice(record, 0, 2) =~= le_bytes(tag as nat, 2));
    assert(slice(record, 2, 2) =~= le_bytes(e.field_type as nat, 2));
    assert(slice(record, 4, f.offset_width) =~= le_bytes(e.count, f.offset_width));
    assert(slice(record, 4 + f.offset_width, f.offset_width) =~= value_field(e, at, f));
}

/// Entry number `i` of a finished directory lies at `record_offset` in the file.
pub proof fn lemma_record_in_file(before: Seq<u8>, slot: nat, m: Entries, f: Format, i: nat)
    requires
        slot + f.offset_width <= before.len(),
        i < ordered_tags(m.dom()).len(),
    ensures
        record_offset(m, before.len(), f, i) + f.record_len() <= finished_file(
            before,
            slot,
            m,
            f,
        ).len(),
        slice(
            finished_file(before, slot, m, f),
            record_offset(m, before.len(), f, i),
            f.record_len(),
        ) == entry_record(
            ordered_tags(m.dom())[i as int],
            m[ordered_tags(m.dom())[i as int]],
            payload_offset(m, before.len(), f, i),
            f,
        ),
{
    let file = finished_file(before, slot, m, f);
    let base = before.len();
    let image = directory_image(m, base, f);
    let tags = ordered_tags(m.dom());
    let p = payloads(m, tags, f).len();
    let rl = f.record_len();
    let records = table(m, tags, base, f);
    lemma_finished_file(before, slot, m, f);
    lemma_directory_image(m, base, f);
    lemma_table_record(m, tags, base, f, i as int);
    lemma_table_len(m, tags, base, f);
    assert((i + 1) * rl == i * rl + rl) by (nonlinear_arith);
    assert(records.subrange((i * rl) as int, ((i + 1) * rl) as int) =~= slice(
        records,
        i * rl,
        rl,
    ));
    lemma_slice_of_slice(image, p + f.count_width, tags.len() * rl, i * rl, rl);
    lemma_slice_of_slice(file, base, image.len(), p + f.count_width + i * rl, rl);
}

/// The values of entry number `i` of a finished directory that do not fit the entry lie
/// at `payload_offset` in the file, behind the bytes that the file had before.
pub proof fn lemma_payload_in_file(before: Seq<u8>, slot: nat, m: Entries, f: Format, i: nat)
    requires
        slot + f.offset_width <= before.len(),
        i < ordered_tags(m.dom()).len(),
        is_external(m[ordered_tags(m.dom())[i as int]], f),
    ensures
        before.len() <= payload_offset(m, before.len(), f, i),
        payload_offset(m, before.len(), f, i) + m[ordered_tags(m.dom())[i as int]].data.len()
            <= directory_offset(m, before.len(), f),
        directory_offset(m, before.len(), f) <= finished_file(before, slot, m, f).len(),
        slice(
            finished_file(before, slot, m, f),
            payload_offset(m, before.len(), f, i),
            m[ordered_tags(m.dom())[i as int]].data.len(),
        ) == m[ordered_tags(m.dom())[i as int]].data,
{
    let file = finished_file(before, slot, m, f);
    let base = before.len();
    let image = directory_image(m, base, f);
    let tags = ordered_tags(m.dom());
    let p = payloads(m, tags, f).len();
    let part = payloads(m, tags.take(i as int), f).len();
    let data = m[tags[i as int]].data;
    lemma_finished_file(before, slot, m, f);
    lemma_directory_image(m, base, f);
    lemma_payload_at(m, tags, f, i as int);
    lemma_slice_of_slice(image, 0, p, part, data.len());
    lemma_slice_of_slice(file, base, image.len(), part, data.len());
}

/// Every entry of a finished directory can be read back.
///
/// Entry number `i` lies at [`record_offset`] and holds the `i`-th tag in ascending
/// order, with the field type and the value count that were stored under it. Values that
/// fit the value field are read from the field itself, without following an offset. Values
/// that do not fit are not in the field: the field holds an offset, and the bytes at
/// that offset are the values.
pub proof fn lemma_entry_round_trip(before: Seq<u8>, slot: nat, m: Entries, f: Format, i: nat)
    requires
        slot + f.offset_width <= before.len(),
        directory_fits(m, before.len(), f),
        i < ordered_tags(m.dom()).len(),
    ensures
        ({
            let file = finished_file(before, slot, m, f);
            let tag = ordered_tags(m.dom())[i as int];
            let e = m[tag];
            let at = record_offset(m, before.len(), f, i);
            let field = slice(file, at + 4 + f.offset_width, f.offset_width);
            let target = payload_offset(m, before.len(), f, i);
            &&& m.dom().contains(tag)
            &&& at + f.record_len() <= file.len()
            &&& le_value(slice(file, at, 2)) == tag
            &&& le_value(slice(file, at + 2, 2)) == e.field_type
            &&& slice(file, at + 4, f.offset_width) == le_bytes(e.count, f.offset_width)
            &&& f.holds_offset(e.count) ==> le_value(slice(file, at + 4, f.offset_width))
                == e.count
            &&& !is_external(e, f) ==> slice(field, 0, e.data.len()) == e.data
            &&& is_external(e, f) ==> {
                &&& le_value(field) == target
                &&& before.len() <= target
                &&& target + e.data.len() <= file.len()
                &&& slice(file, target, e.data.len()) == e.data
            }
        }),
{
    let file = finished_file(before, slot, m, f);
    let base = before.len();
    let tags = ordered_tags(m.dom());
    let tag = tags[i as int];
    let e = m[tag];
    let ow = f.offset_width;
    let rl = f.record_len();
    let at = record_offset(m, base, f, i);
    let target = payload_offset(m, base, f, i);
    let record = entry_record(tag, e, target, f);
    lemma_tags_from(m.dom(), 0);
    lemma_record_in_file(before, slot, m, f, i);
    lemma_record_fields(tag, e, target, f);
    lemma_slice_of_slice(file, at, rl, 0, 2);
    lemma_slice_of_slice(file, at, rl, 2, 2);
    lemma_slice_of_slice(file, at, rl, 4, ow);
    lemma_slice_of_slice(file, at, rl, 4 + ow, ow);
    lemma_pow256_two();
    lemma_le_round_trip(tag as nat, 2);
    lemma_le_round_trip(e.field_type as nat, 2);
    if f.holds_offset(e.count) {
        lemma_le_round_trip(e.count, ow);
    }
    let field = slice(file, at + 4 + ow, ow);
    assert(field == value_field(e, target, f));
    if is_external(e, f) {
        lemma_payload_in_file(before, slot, m, f, i);
        lemma_le_round_trip(target, ow);
    } else {
        assert(slice(field, 0, e.data.len()) =~= e.data);
    }
}

/// The entries of a finished directory are in strictly ascending order of their tags, as
/// they are read from the file: of two entries, the one that comes first holds the
/// smaller tag.
pub proof fn lemma_serialized_tags_ascending(
    before: Seq<u8>,
    slot: nat,
    m: Entries,
    f: Format,
    i: nat,
    j: nat,
)
    requires
        slot + f.offset_width <= before.len(),
        directory_fits(m, before.len(), f),
        i < j < ordered_tags(m.dom()).len(),
    ensures
        record_offset(m, before.len(), f, i) + f.record_len() <= record_offset(
            m,
            before.len(),
            f,
            j,
        ),
        le_value(slice(finished_file(before, slot, m, f), record_offset(m, before.len(), f, i), 2))
            < le_value(
            slice(finished_file(before, slot, m, f), record_offset(m, before.len(), f, j), 2),
        ),
{
    lemma_entry_round_trip(before, slot, m, f, i);
    lemma_entry_round_trip(before, slot, m, f, j);
    lemma_ordered_tags(m.dom());
    assert((i + 1) * f.record_len() <= j * f.record_len()) by (nonlinear_arith)
        requires
            i + 1 <= j,
    ;
    assert((i + 1) * f.record_len() == i * f.record_len() + f.record_len()) by (nonlinear_arith);
}

/// A finished file ends behind its last directory, which is as long as its parts.
pub proof fn lemma_finished_file_len(before: Seq<u8>, slot: nat, m: Entries, f: Format)
    requires
        slot + f.offset_width <= before.len(),
    ensures
        finished_file(before, slot, m, f).len() == directory_offset(m, before.len(), f)
            + f.count_width + ordered_tags(m.dom()).len() * f.record_len() + f.offset_width,
{
    lemma_finished_file(before, slot, m, f);
    lemma_directory_image(m, before.len(), f);
}

/// A finished file ends with a zero offset: the slot that the next directory, if there is
/// one, is linked from.
pub proof fn lemma_next_slot(before: Seq<u8>, slot: nat, m: Entries, f: Format)
    requires
        slot + f.offset_width <= before.len(),
    ensures
        f.offset_width <= finished_file(before, slot, m, f).len(),
        slice(
            finished_file(before, slot, m, f),
            (finished_file(before, slot, m, f).len() - f.offset_width) as nat,
            f.offset_width,
        ) == zeros(f.offset_width),
{
    let file = finished_file(before, slot, m, f);
    let image = directory_image(m, before.len(), f);
    lemma_finished_file(before, slot, m, f);
    lemma_directory_image(m, before.len(), f);
    lemma_slice_of_slice(
        file,
        before.len(),
        image.len(),
        (image.len() - f.offset_width) as nat,
        f.offset_width,
    );
}

/// Two bytes hold the numbers below 65536.
proof fn lemma_pow256_two()
    ensures
        pow256(2) == 0x1_0000,
{
    reveal_with_fuel(pow256, 3);
}

/// The order in which two entries with different tags are stored does not matter: the
/// directory, and so the finished file, is the same.
pub proof fn lemma_insertion_order(m: Entries, a: u16, x: EntryModel, b: u16, y: EntryModel)
    requires
        a != b,
    ensures
        m.insert(a, x).insert(b, y) == m.insert(b, y).insert(a, x),
{
    assert(m.insert(a, x).insert(b, y) =~= m.insert(b, y).insert(a, x));
}

/// An entry that is stored under a tag replaces the entry that was stored under it.
pub proof fn lemma_last_write_wins(m: Entries, tag: u16, x: EntryModel, y: EntryModel)
    ensures
        m.insert(tag, x).insert(tag, y) == m.insert(tag, y),
        m.insert(tag, y)[tag] == y,
{
    assert(m.insert(tag, x).insert(tag, y) =~= m.insert(tag, y));
}

} // verus!
