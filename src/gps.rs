//! Position fixes from the GPS receiver's `$GPRMC` sentences.
use vstd::prelude::*;
use crate::bytes::bytes_equal;

verus! {

/// The string that `String::from_utf8_lossy` makes of a byte sequence.
pub uninterp spec fn utf8_lossy(bytes: Seq<u8>) -> Seq<char>;

/// Relies on `String::from_utf8_lossy`: the text of the bytes, with each
/// invalid sequence replaced; it depends on the bytes alone.
#[verifier::external_body]
fn lossy_string(bytes: &[u8]) -> (r: String)
    ensures
        r@ == utf8_lossy(bytes@),
{
    String::from_utf8_lossy(bytes).into_owned()
}

/// Field separator of an NMEA sentence.
pub const FIELD_SEPARATOR: u8 = 0x2c;

/// Number of fields of a `$GPRMC` sentence that are read.
pub const GPRMC_FIELDS: usize = 13;

/// The bytes of the `$GPRMC` sentence tag.
pub open spec fn gprmc_tag() -> Seq<u8> {
    seq![0x24u8, 0x47u8, 0x50u8, 0x52u8, 0x4du8, 0x43u8]
}

/// The comma-separated fields of `s`; a sequence without a comma is one field.
pub open spec fn split_fields(s: Seq<u8>) -> Seq<Seq<u8>>
    decreases s.len(),
{
    if s.len() == 0 {
        seq![Seq::<u8>::empty()]
    } else {
        let r = split_fields(s.drop_last());
        if s.last() == FIELD_SEPARATOR {
            r.push(Seq::<u8>::empty())
        } else {
            r.update(r.len() - 1, r.last().push(s.last()))
        }
    }
}

/// Views of a vector of byte vectors.
pub open spec fn field_views(v: Seq<Vec<u8>>) -> Seq<Seq<u8>> {
    v.map_values(|f: Vec<u8>| f@)
}

/// Splits `sentence` at each comma.
pub fn split_sentence(sentence: &[u8]) -> (r: Vec<Vec<u8>>)
    ensures
        field_views(r@) == split_fields(sentence@),
{
    let mut fields: Vec<Vec<u8>> = Vec::new();
    let mut current: Vec<u8> = Vec::new();
    let mut i: usize = 0;
    while i < sentence.len()
        invariant
            0 <= i <= sentence@.len(),
            field_views(fields@).push(current@) == split_fields(sentence@.subrange(0, i as int)),
        decreases sentence@.len() - i,
    {
        let b = sentence[i];
        let ghost prev = split_fields(sentence@.subrange(0, i as int));
        assert(sentence@.subrange(0, i as int + 1).drop_last() =~= sentence@.subrange(0, i as int));
        assert(sentence@.subrange(0, i as int + 1).last() == b);
        if b == FIELD_SEPARATOR {
            let ghost before = field_views(fields@);
            let ghost cur = current@;
            fields.push(current);
            current = Vec::new();
            assert(field_views(fields@) =~= before.push(cur));
            assert(field_views(fields@).push(current@) =~= prev.push(Seq::<u8>::empty()));
        } else {
            current.push(b);
            assert(field_views(fields@).push(current@) =~= prev.update(
                prev.len() - 1,
                prev.last().push(b),
            ));
        }
        i = i + 1;
    }
    assert(sentence@.subrange(0, i as int) =~= sentence@);
    let ghost before = field_views(fields@);
    let ghost cur = current@;
    fields.push(current);
    assert(field_views(fields@) =~= before.push(cur));
    fields
}

/// Fields of a recommended-minimum position sentence, as text.
pub struct GPSData {
    pub time: String,
    pub status: String,
    pub latitude: String,
    pub latitude_hemisphere: String,
    pub longitude: String,
    pub longitude_hemisphere: String,
    pub speed: String,
    pub track_angle: String,
    pub date: String,
    pub magnetic_variation: String,
    pub magnetic_variation_direction: String,
    pub mode: String,
}

/// Whether `s` is a `$GPRMC` sentence with all the fields that are read.
pub open spec fn is_gprmc(s: Seq<u8>) -> bool {
    &&& split_fields(s).len() >= GPRMC_FIELDS
    &&& split_fields(s)[0] == gprmc_tag()
}

/// Parses a `$GPRMC` sentence into its fields; fails on another sentence or
/// one with fewer than `GPRMC_FIELDS` fields.
pub fn parse_gprmc(sentence: &[u8]) -> (r: Result<GPSData, ()>)
    ensures
        r is Ok <==> is_gprmc(sentence@),
        r is Ok ==> {
            let f = split_fields(sentence@);
            let d = r->Ok_0;
            &&& d.time@ == utf8_lossy(f[1])
            &&& d.status@ == utf8_lossy(f[2])
            &&& d.latitude@ == utf8_lossy(f[3])
            &&& d.latitude_hemisphere@ == utf8_lossy(f[4])
            &&& d.longitude@ == utf8_lossy(f[5])
            &&& d.longitude_hemisphere@ == utf8_lossy(f[6])
            &&& d.speed@ == utf8_lossy(f[7])
            &&& d.track_angle@ == utf8_lossy(f[8])
            &&& d.date@ == utf8_lossy(f[9])
            &&& d.magnetic_variation@ == utf8_lossy(f[10])
            &&& d.magnetic_variation_direction@ == utf8_lossy(f[11])
            &&& d.mode@ == utf8_lossy(f[12])
        },
{
    let fields = split_sentence(sentence);
    let ghost f = split_fields(sentence@);
    assert(forall|i: int| 0 <= i < fields@.len() ==> #[trigger] fields@[i]@ == f[i]) by {
        assert forall|i: int| 0 <= i < fields@.len() implies #[trigger] fields@[i]@ == f[i] by {
            assert(field_views(fields@)[i] == fields@[i]@);
        }
    }
    if fields.len() < GPRMC_FIELDS {
        return Err(());
    }
    let tag: [u8; 6] = [0x24, 0x47, 0x50, 0x52, 0x4d, 0x43];
    assert(tag@ =~= gprmc_tag());
    if !bytes_equal(fields[0].as_slice(), &tag) {
        return Err(());
    }
    Ok(GPSData {
        time: lossy_string(fields[1].as_slice()),
        status: lossy_string(fields[2].as_slice()),
        latitude: lossy_string(fields[3].as_slice()),
        latitude_hemisphere: lossy_string(fields[4].as_slice()),
        longitude: lossy_string(fields[5].as_slice()),
        longitude_hemisphere: lossy_string(fields[6].as_slice()),
        speed: lossy_string(fields[7].as_slice()),
        track_angle: lossy_string(fields[8].as_slice()),
        date: lossy_string(fields[9].as_slice()),
        magnetic_variation: lossy_string(fields[10].as_slice()),
        magnetic_variation_direction: lossy_string(fields[11].as_slice()),
        mode: lossy_string(fields[12].as_slice()),
    })
}

} // verus!
