use vstd::multiset::Multiset;
use vstd::prelude::*;
use vstd::string::StrSliceExecFns;
use vstd::string::StringExecFns;
use vstd::string::StringSliceAdditionalSpecFns;

use crate::error::SpotifyError;
use crate::metadata::ReleaseDate;
use crate::quality::AudioFormat;
use crate::strings::{
    join_spec, join_values, pad2_spec, pad4_spec, str_eq, trim_ascii, trim_spec, u32_to_padded2,
    u32_to_padded4,
};

verus! {

/// A metadata field the tagger can write.
#[derive(Debug, Clone, Copy, PartialEq, Eq, Structural)]
pub enum Field {
    Title,
    Artist,
    Album,
    TrackNumber,
    DiscNumber,
    AlbumArtist,
    Genre,
    Label,
}

/// Which format-specific tag writer applies to a finished file.
#[derive(Debug, Clone, Copy, PartialEq, Eq, Structural)]
pub enum TagKind {
    Vorbis,
    Id3,
    Mp4,
}

/// The tag writer for a container format; an unknown container cannot be
/// tagged and fails with `InvalidFormat`.
pub fn tag_kind_for(format: AudioFormat) -> (r: Result<TagKind, SpotifyError>)
    ensures
        match format {
            AudioFormat::OGG => r == Ok::<TagKind, SpotifyError>(TagKind::Vorbis),
            AudioFormat::AAC => r == Ok::<TagKind, SpotifyError>(TagKind::Mp4),
            AudioFormat::MP3 => r == Ok::<TagKind, SpotifyError>(TagKind::Id3),
            AudioFormat::MP4 => r == Ok::<TagKind, SpotifyError>(TagKind::Mp4),
            AudioFormat::Unknown => r matches Err(SpotifyError::InvalidFormat),
        },
{
    match format {
        AudioFormat::OGG => Ok(TagKind::Vorbis),
        AudioFormat::AAC => Ok(TagKind::Mp4),
        AudioFormat::MP3 => Ok(TagKind::Id3),
        AudioFormat::MP4 => Ok(TagKind::Mp4),
        AudioFormat::Unknown => Err(SpotifyError::InvalidFormat),
    }
}

/// An MP4 metadata atom identifier: a four-byte code, or a freeform mean and
/// name pair.
#[derive(Debug)]
pub enum TagIdent {
    Fourcc(u8, u8, u8, u8),
    Freeform(String, String),
}

/// The key an identifier files its data under in the tag's spec-level map.
/// The two identifier shapes never collide: a code key and a freeform key are
/// different variants, just as the container keeps code atoms and freeform
/// atoms apart.
pub enum TagKey {
    Code(Seq<char>),
    Free(Seq<char>, Seq<char>),
}

pub open spec fn ident_key(ident: TagIdent) -> TagKey {
    match ident {
        TagIdent::Fourcc(a, b, c, d) => TagKey::Code(
            seq![a as char, b as char, c as char, d as char],
        ),
        TagIdent::Freeform(mean, name) => TagKey::Free(mean@, name@),
    }
}

/// The key of the cover artwork atom.
pub open spec fn artwork_key() -> TagKey {
    TagKey::Code(seq!['c', 'o', 'v', 'r'])
}

#[verifier::external_type_specification]
#[verifier::external_body]
pub struct ExUserdata(mp4ameta::Userdata);

/// The string values held by the first metadata atom of each identifier an
/// MP4 tag has, keyed as `ident_key` files them; an identifier without an
/// atom, or whose atom holds no string data, maps to the empty sequence.
pub uninterp spec fn tag_entries(t: mp4ameta::Userdata) -> Map<TagKey, Seq<Seq<char>>>;

/// The cover artworks an MP4 tag holds: whether each is PNG (else JPEG), and
/// its bytes.
pub uninterp spec fn tag_artworks(t: mp4ameta::Userdata) -> Multiset<(bool, Seq<u8>)>;

/// Relies on mp4ameta's `Userdata::set_data`: replaces whatever the (first)
/// atom of the identifier held with the single given UTF-8 string, creating
/// the atom if the tag has none; atoms of other identifiers stay as they are.
#[verifier::external_body]
fn mp4_set_data(tag: &mut mp4ameta::Userdata, ident: &TagIdent, value: &String)
    ensures
        tag_entries(*final(tag)) == tag_entries(*old(tag)).insert(
            ident_key(*ident),
            seq![value@],
        ),
        ident_key(*ident) != artwork_key() ==> tag_artworks(*final(tag)) == tag_artworks(
            *old(tag),
        ),
{
    let data = mp4ameta::Data::Utf8(value.clone());
    match ident {
        TagIdent::Fourcc(a, b, c, d) => {
            tag.set_data(mp4ameta::DataIdent::fourcc([*a, *b, *c, *d]), data)
        },
        TagIdent::Freeform(mean, name) => {
            tag.set_data(mp4ameta::DataIdent::freeform(mean.clone(), name.clone()), data)
        },
    }
}

/// Relies on mp4ameta's `Userdata::set_all_data`: replaces whatever the
/// (first) atom of the identifier held with the given UTF-8 strings, one
/// datum each, creating the atom if the tag has none; atoms of other
/// identifiers stay as they are.
#[verifier::external_body]
fn mp4_set_all_data(tag: &mut mp4ameta::Userdata, ident: &TagIdent, values: &Vec<String>)
    ensures
        tag_entries(*final(tag)) == tag_entries(*old(tag)).insert(
            ident_key(*ident),
            values.deep_view(),
        ),
        ident_key(*ident) != artwork_key() ==> tag_artworks(*final(tag)) == tag_artworks(
            *old(tag),
        ),
{
    let data: Vec<mp4ameta::Data> =
        values.iter().map(|v| mp4ameta::Data::Utf8(v.clone())).collect();
    match ident {
        TagIdent::Fourcc(a, b, c, d) => {
            tag.set_all_data(mp4ameta::DataIdent::fourcc([*a, *b, *c, *d]), data)
        },
        TagIdent::Freeform(mean, name) => {
            tag.set_all_data(mp4ameta::DataIdent::freeform(mean.clone(), name.clone()), data)
        },
    }
}

/// Relies on mp4ameta's `Userdata::add_artwork` with `Img::jpeg`: adds one
/// JPEG artwork under the artwork atom; the string values of every atom stay
/// as they are.
#[verifier::external_body]
fn mp4_add_artwork_jpeg(tag: &mut mp4ameta::Userdata, data: Vec<u8>)
    ensures
        tag_artworks(*final(tag)) == tag_artworks(*old(tag)).insert((false, data@)),
        tag_entries(*final(tag)) == tag_entries(*old(tag)),
{
    tag.add_artwork(mp4ameta::Img::jpeg(data));
}

/// Relies on mp4ameta's `Userdata::add_artwork` with `Img::png`: adds one PNG
/// artwork under the artwork atom; the string values of every atom stay as
/// they are.
#[verifier::external_body]
fn mp4_add_artwork_png(tag: &mut mp4ameta::Userdata, data: Vec<u8>)
    ensures
        tag_artworks(*final(tag)) == tag_artworks(*old(tag)).insert((true, data@)),
        tag_entries(*final(tag)) == tag_entries(*old(tag)),
{
    tag.add_artwork(mp4ameta::Img::png(data));
}

/// The key each field's atom is filed under: the four-byte codes the MP4
/// container defines for them, `©` (0xa9) leading the text atoms, and a
/// freeform `com.apple.iTunes` atom for the label.
pub open spec fn field_key(f: Field) -> TagKey {
    match f {
        Field::Title => TagKey::Code(seq![169 as char, 'n', 'a', 'm']),
        Field::Artist => TagKey::Code(seq![169 as char, 'A', 'R', 'T']),
        Field::Album => TagKey::Code(seq![169 as char, 'a', 'l', 'b']),
        Field::TrackNumber => TagKey::Code(seq!['t', 'r', 'k', 'n']),
        Field::DiscNumber => TagKey::Code(seq!['d', 'i', 's', 'k']),
        Field::AlbumArtist => TagKey::Code(seq!['a', 'A', 'R', 'T']),
        Field::Genre => TagKey::Code(seq![169 as char, 'g', 'e', 'n']),
        Field::Label => TagKey::Free("com.apple.iTunes"@, "LABEL"@),
    }
}

/// No field's atom is the artwork atom.
pub proof fn lemma_field_key_not_artwork(f: Field)
    ensures
        field_key(f) != artwork_key(),
{
    match f {
        Field::Label => {},
        _ => {
            assert((field_key(f)->Code_0)[0] != (artwork_key()->Code_0)[0]);
        },
    }
}

fn ident_for_field(f: &Field) -> (r: TagIdent)
    ensures
        ident_key(r) == field_key(*f),
{
    match f {
        Field::Title => TagIdent::Fourcc(0xa9, 0x6e, 0x61, 0x6d),
        Field::Artist => TagIdent::Fourcc(0xa9, 0x41, 0x52, 0x54),
        Field::Album => TagIdent::Fourcc(0xa9, 0x61, 0x6c, 0x62),
        Field::TrackNumber => TagIdent::Fourcc(0x74, 0x72, 0x6b, 0x6e),
        Field::DiscNumber => TagIdent::Fourcc(0x64, 0x69, 0x73, 0x6b),
        Field::AlbumArtist => TagIdent::Fourcc(0x61, 0x41, 0x52, 0x54),
        Field::Genre => TagIdent::Fourcc(0xa9, 0x67, 0x65, 0x6e),
        Field::Label => TagIdent::Freeform(
            String::from_str("com.apple.iTunes"),
            String::from_str("LABEL"),
        ),
    }
}

/// Writes one field: multiple values are joined with the configured
/// separator into the single string the MP4 atom holds.
pub fn mp4_set_field(
    tag: &mut mp4ameta::Userdata,
    field: &Field,
    values: &Vec<String>,
    separator: &str,
)
    ensures
        tag_entries(*final(tag)) == tag_entries(*old(tag)).insert(
            field_key(*field),
            seq![join_spec(values.deep_view(), separator@)],
        ),
        tag_artworks(*final(tag)) == tag_artworks(*old(tag)),
{
    let joined = join_values(values, separator);
    let ident = ident_for_field(field);
    proof {
        lemma_field_key_not_artwork(*field);
    }
    mp4_set_data(tag, &ident, &joined);
}

/// The key a raw tag name is filed under: a five-byte name opening with the
/// UTF-8 encoding of `©` collapses to the four-byte code the container uses,
/// any other four-byte name is taken as a code as it stands, and everything
/// else becomes a freeform `com.apple.iTunes` atom.
pub open spec fn raw_key(name: Seq<char>, bytes: Seq<u8>) -> TagKey {
    if bytes.len() == 5 && bytes[0] == 194 && bytes[1] == 169 {
        TagKey::Code(seq![169 as char, bytes[2] as char, bytes[3] as char, bytes[4] as char])
    } else if bytes.len() == 4 {
        TagKey::Code(seq![bytes[0] as char, bytes[1] as char, bytes[2] as char, bytes[3] as char])
    } else {
        TagKey::Free("com.apple.iTunes"@, name)
    }
}

/// Writes an arbitrary tag atom by name, one datum per value.
pub fn mp4_set_raw(tag: &mut mp4ameta::Userdata, name: &str, values: &Vec<String>)
    ensures
        tag_entries(*final(tag)) == tag_entries(*old(tag)).insert(
            raw_key(name@, name.spec_bytes()),
            values.deep_view(),
        ),
        raw_key(name@, name.spec_bytes()) != artwork_key() ==> tag_artworks(*final(tag))
            == tag_artworks(*old(tag)),
{
    let bytes = name.as_bytes_vec();
    let ident = if bytes.len() == 5 && bytes[0] == 194 && bytes[1] == 169 {
        TagIdent::Fourcc(0xa9, bytes[2], bytes[3], bytes[4])
    } else if bytes.len() == 4 {
        TagIdent::Fourcc(bytes[0], bytes[1], bytes[2], bytes[3])
    } else {
        TagIdent::Freeform(String::from_str("com.apple.iTunes"), name.to_owned())
    };
    proof {
        assert(ident_key(ident) == raw_key(name@, name.spec_bytes()));
    }
    mp4_set_all_data(tag, &ident, values);
}

/// The release timestamp string the MP4 day atom holds: the date at midnight
/// UTC in ISO form.
pub open spec fn iso_datetime_of(d: ReleaseDate) -> Seq<char> {
    pad4_spec(d.year as nat) + seq!['-'] + pad2_spec(d.month as nat) + seq!['-'] + pad2_spec(
        d.day as nat,
    ) + "T00:00:00+00:00"@
}

/// The key of the day atom.
pub open spec fn day_key() -> TagKey {
    TagKey::Code(seq![169 as char, 'd', 'a', 'y'])
}

/// Writes the release date as an ISO timestamp at midnight UTC.
pub fn mp4_set_release_date(tag: &mut mp4ameta::Userdata, date: &ReleaseDate)
    ensures
        tag_entries(*final(tag)) == tag_entries(*old(tag)).insert(
            day_key(),
            seq![iso_datetime_of(*date)],
        ),
        tag_artworks(*final(tag)) == tag_artworks(*old(tag)),
{
    let mut value = u32_to_padded4(date.year);
    crate::strings::push_char(&mut value, '-');
    let month = u32_to_padded2(date.month);
    value.append(month.as_str());
    crate::strings::push_char(&mut value, '-');
    let day = u32_to_padded2(date.day);
    value.append(day.as_str());
    value.append("T00:00:00+00:00");
    let ident = TagIdent::Fourcc(0xa9, 0x64, 0x61, 0x79);
    proof {
        assert(ident_key(ident)->Code_0 =~= day_key()->Code_0);
        assert((ident_key(ident)->Code_0)[0] != (artwork_key()->Code_0)[0]);
        assert(value@ =~= iso_datetime_of(*date));
    }
    mp4_set_data(tag, &ident, &value);
}

/// The supported cover image kinds.
#[derive(Debug, Clone, Copy, PartialEq, Eq, Structural)]
pub enum CoverKind {
    Jpeg,
    Png,
}

/// The cover kind a MIME type names, after trimming ASCII whitespace;
/// anything but JPEG and PNG is unsupported.
pub open spec fn cover_kind_spec(mime: Seq<char>) -> Option<CoverKind> {
    let t = trim_spec(mime);
    if t == "image/jpeg"@ || t == "image/jpg"@ {
        Some(CoverKind::Jpeg)
    } else if t == "image/png"@ {
        Some(CoverKind::Png)
    } else {
        None
    }
}

pub fn cover_kind(mime: &str) -> (r: Option<CoverKind>)
    ensures
        r == cover_kind_spec(mime@),
{
    let t = trim_ascii(mime);
    if str_eq(t.as_str(), "image/jpeg") || str_eq(t.as_str(), "image/jpg") {
        Some(CoverKind::Jpeg)
    } else if str_eq(t.as_str(), "image/png") {
        Some(CoverKind::Png)
    } else {
        None
    }
}

/// Adds cover art when its MIME type is supported; an unsupported type is
/// skipped without failing, and the rest of the tag is untouched either way.
pub fn mp4_add_cover(tag: &mut mp4ameta::Userdata, mime: &str, data: Vec<u8>) -> (added: bool)
    ensures
        tag_entries(*final(tag)) == tag_entries(*old(tag)),
        match cover_kind_spec(mime@) {
            Some(k) => added && tag_artworks(*final(tag)) == tag_artworks(*old(tag)).insert(
                ((k matches CoverKind::Png), data@),
            ),
            None => !added && tag_artworks(*final(tag)) == tag_artworks(*old(tag)),
        },
{
    match cover_kind(mime) {
        Some(CoverKind::Jpeg) => {
            mp4_add_artwork_jpeg(tag, data);
            true
        },
        Some(CoverKind::Png) => {
            mp4_add_artwork_png(tag, data);
            true
        },
        None => false,
    }
}

/// The tag's string atoms after the fields are written in order: each field's
/// values joined with the separator, filed under the field's key.
pub open spec fn entries_after_fields(
    entries: Map<TagKey, Seq<Seq<char>>>,
    fields: Seq<(Field, Seq<Seq<char>>)>,
    sep: Seq<char>,
) -> Map<TagKey, Seq<Seq<char>>>
    decreases fields.len(),
{
    if fields.len() == 0 {
        entries
    } else {
        entries_after_fields(
            entries.insert(field_key(fields[0].0), seq![join_spec(fields[0].1, sep)]),
            fields.skip(1),
            sep,
        )
    }
}

/// The fields as the spec-level fold sees them.
pub open spec fn fields_view(fields: Seq<(Field, Vec<String>)>) -> Seq<(Field, Seq<Seq<char>>)> {
    fields.map_values(|p: (Field, Vec<String>)| (p.0, p.1.deep_view()))
}

/// Writes a whole MP4 tag: every field in order, then the release date, then
/// the cover when one was fetched and its MIME type is supported — an
/// unsupported or missing cover never fails the job.
#[verifier::loop_isolation(false)]
pub fn write_mp4_tags(
    tag: &mut mp4ameta::Userdata,
    fields: &Vec<(Field, Vec<String>)>,
    date: &ReleaseDate,
    cover: Option<(String, Vec<u8>)>,
    separator: &str,
)
    ensures
        tag_entries(*final(tag)) == entries_after_fields(
            tag_entries(*old(tag)),
            fields_view(fields@),
            separator@,
        ).insert(day_key(), seq![iso_datetime_of(*date)]),
        tag_artworks(*final(tag)) == match cover {
            Some(c) => match cover_kind_spec(c.0@) {
                Some(k) => tag_artworks(*old(tag)).insert(((k matches CoverKind::Png), c.1@)),
                None => tag_artworks(*old(tag)),
            },
            None => tag_artworks(*old(tag)),
        },
{
    let ghost entries0 = tag_entries(*tag);
    let ghost fv = fields_view(fields@);
    let n = fields.len();
    let mut i: usize = 0;
    proof {
        assert(fv.skip(0) =~= fv);
    }
    while i < n
        invariant
            i <= n,
            tag_artworks(*tag) == tag_artworks(*old(tag)),
            entries_after_fields(entries0, fv, separator@) == entries_after_fields(
                tag_entries(*tag),
                fv.skip(i as int),
                separator@,
            ),
        decreases n - i,
    {
        let ghost rest = fv.skip(i as int);
        proof {
            assert(rest[0] == fv[i as int]);
            assert(fv[i as int] == (fields@[i as int].0, fields@[i as int].1.deep_view()));
            assert(rest.skip(1) =~= fv.skip(i + 1));
        }
        mp4_set_field(tag, &fields[i].0, &fields[i].1, separator);
        i += 1;
    }
    proof {
        assert(fv.skip(n as int) =~= Seq::<(Field, Seq<Seq<char>>)>::empty());
    }
    mp4_set_release_date(tag, date);
    match cover {
        Some((mime, data)) => {
            mp4_add_cover(tag, mime.as_str(), data);
        },
        None => {},
    }
}

} // verus!
