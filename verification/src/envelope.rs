//! The two envelopes of a key container: the structured bytes themselves,
//! or the same bytes as text, base64 in lines of 80 characters between the
//! boundary lines of a PEM document.

use crate::asn1::{content_limit, TAG_SEQUENCE};
use crate::bytes::{lemma_same_text, range_is, same_bytes};
use crate::commands::arg_enums::{Algorithm, Format};
use crate::commands::error::{bytes_outcome, key_outcome, CryptoError, Fault};
use crate::container::{
    mismatched_length_is_refused, private_container, private_container_reads_back,
    private_der, private_frame,
    public_container, public_container_reads_back, public_der, public_frame,
    public_length_text, read_private, read_private_container, read_public,
    read_public_container,
};
use crate::registry::lengths;
use vstd::prelude::*;

verus! {

/// The number of base64 characters in a full line of the text envelope.
pub const LINE_WIDTH: usize = 80;

/// The text that the `der` crate's PEM encoder writes for a label and the
/// bytes to wrap, in lines of the given width that end in line feeds, as
/// bytes; `None` where it refuses them.
pub uninterp spec fn pem_text(label: Seq<char>, width: usize, der: Seq<u8>) -> Option<Seq<u8>>;

/// The label and the bytes that the `der` crate's PEM decoder finds in a
/// text with lines of the given width; `None` where it refuses the text.
pub uninterp spec fn pem_content(text: Seq<u8>, width: usize) -> Option<(Seq<char>, Seq<u8>)>;

/// Runs the PEM encoder of the `der` crate: `encapsulated_len_wrapped` for
/// the room that the text needs, then `Encoder::new_wrapped`, `encode` and
/// `finish`, with line feeds as line ends. The result is taken to depend on
/// the label, the width and the bytes alone; nothing else is claimed of it,
/// not even that the decoder reads it.
#[verifier::external_body]
fn pem_encode(label: &str, width: usize, der: &[u8]) -> (text: Option<Vec<u8>>)
    ensures
        match text {
            Some(t) => pem_text(label@, width, der@) == Some(t@),
            None => pem_text(label@, width, der@) is None,
        },
{
    let line_feed = der::pem::LineEnding::LF;
    let room = der::pem::encapsulated_len_wrapped(label, width, line_feed, der.len()).ok()?;
    let mut text = vec![0u8; room];
    let mut encoder = der::pem::Encoder::new_wrapped(label, width, line_feed, &mut text).ok()?;
    encoder.encode(der).ok()?;
    let written = encoder.finish().ok()?;
    text.truncate(written);
    Some(text)
}

/// Runs the PEM decoder of the `der` crate: `Decoder::new_wrapped`, then
/// `decode_to_end` and `type_label`. The result is taken to depend on the
/// text and the width alone; nothing else is claimed of it.
#[verifier::external_body]
fn pem_decode(text: &[u8], width: usize) -> (content: Option<(String, Vec<u8>)>)
    ensures
        match content {
            Some((label, der)) => pem_content(text@, width) == Some((label@, der@)),
            None => pem_content(text@, width) is None,
        },
{
    let mut decoder = der::pem::Decoder::new_wrapped(text, width).ok()?;
    let mut der = Vec::new();
    decoder.decode_to_end(&mut der).ok()?;
    Some((decoder.type_label().to_owned(), der))
}

/// The label of a private key in the text envelope.
pub open spec fn private_label() -> Seq<char> {
    "PRIVATE KEY"@
}

/// The label of a public key in the text envelope.
pub open spec fn public_label() -> Seq<char> {
    "PUBLIC KEY"@
}

/// The eleven bytes that a text envelope begins with: `-----BEGIN `.
pub open spec fn boundary() -> Seq<u8> {
    seq![0x2du8, 0x2d, 0x2d, 0x2d, 0x2d, 0x42, 0x45, 0x47, 0x49, 0x4e, 0x20]
}

/// Whether input is taken for a text envelope: it begins with the
/// boundary. Anything else is taken for the binary envelope.
pub open spec fn is_text(bytes: Seq<u8>) -> bool {
    bytes.len() >= 11 && bytes.take(11) == boundary()
}

/// The fault of a text envelope that cannot be read, or that holds another
/// kind of key.
pub open spec fn unreadable() -> Fault {
    Fault::InvalidFormat("malformed text envelope"@)
}

/// The fault of bytes that the text encoder does not take.
pub open spec fn unwritable() -> Fault {
    Fault::InvalidFormat("text envelope could not be written"@)
}

/// What is handed out for a text that was made for a label and bytes,
/// given what the text is read back as: the text itself where it reads
/// back as the same label and bytes, else a fault.
pub open spec fn accepted_text(
    text: Seq<u8>,
    content: Option<(Seq<char>, Seq<u8>)>,
    label: Seq<char>,
    der: Seq<u8>,
) -> Result<Seq<u8>, Fault> {
    if is_text(text) && content == Some((label, der)) {
        Ok(text)
    } else {
        Err(unwritable())
    }
}

/// The text envelope of bytes under a label. No text is handed out that
/// does not read back as what went in.
pub open spec fn text_envelope(label: Seq<char>, der: Seq<u8>) -> Result<Seq<u8>, Fault> {
    match pem_text(label, LINE_WIDTH, der) {
        Some(text) => accepted_text(text, pem_content(text, LINE_WIDTH), label, der),
        None => Err(unwritable()),
    }
}

/// Structured bytes in the envelope that is asked for.
pub open spec fn sealed(format: Format, label: Seq<char>, der: Seq<u8>) -> Result<
    Seq<u8>,
    Fault,
> {
    match format {
        Format::Der => Ok(der),
        Format::Pem => text_envelope(label, der),
    }
}

/// The encoded private key container of a key pair.
pub open spec fn encoded_private(algorithm: Algorithm, keypair: Seq<u8>, format: Format) -> Result<
    Seq<u8>,
    Fault,
> {
    if keypair.len() != lengths(algorithm).keypair_len {
        Err(Fault::InvalidLengthSecretKey(keypair.len()))
    } else {
        sealed(format, private_label(), private_der(algorithm, keypair))
    }
}

/// The encoded public key container of a public key.
pub open spec fn encoded_public(algorithm: Algorithm, key: Seq<u8>, format: Format) -> Result<
    Seq<u8>,
    Fault,
> {
    if key.len() != lengths(algorithm).public_len {
        Err(Fault::InvalidLengthPublicKey(public_length_text(algorithm)))
    } else {
        sealed(format, public_label(), public_der(algorithm, key))
    }
}

/// The structured bytes in an envelope, given what the text decoder finds
/// in the input: for a text envelope the bytes under the expected label,
/// for anything else the input itself.
pub open spec fn unsealed(
    bytes: Seq<u8>,
    content: Option<(Seq<char>, Seq<u8>)>,
    label: Seq<char>,
) -> Result<Seq<u8>, Fault> {
    if is_text(bytes) {
        match content {
            Some((found, der)) => if found == label {
                Ok(der)
            } else {
                Err(unreadable())
            },
            None => Err(unreadable()),
        }
    } else {
        Ok(bytes)
    }
}

/// Whether input is an envelope around structured bytes under a label:
/// the bytes themselves, where they are not taken for text, or a text that
/// the decoder reads as the label and the bytes.
pub open spec fn envelops(input: Seq<u8>, label: Seq<char>, der: Seq<u8>) -> bool {
    unsealed(input, pem_content(input, LINE_WIDTH), label) == Ok::<Seq<u8>, Fault>(der)
}

/// What an encoded private key container holds, given what the text
/// decoder finds in the input.
pub open spec fn decoded_private_from(
    bytes: Seq<u8>,
    content: Option<(Seq<char>, Seq<u8>)>,
) -> Result<(Algorithm, Seq<u8>), Fault> {
    match unsealed(bytes, content, private_label()) {
        Ok(der) => read_private(der),
        Err(fault) => Err(fault),
    }
}

/// What an encoded public key container holds, given what the text
/// decoder finds in the input.
pub open spec fn decoded_public_from(
    bytes: Seq<u8>,
    content: Option<(Seq<char>, Seq<u8>)>,
) -> Result<(Algorithm, Seq<u8>), Fault> {
    match unsealed(bytes, content, public_label()) {
        Ok(der) => read_public(der),
        Err(fault) => Err(fault),
    }
}

/// What an encoded private key container holds: its level and key pair.
pub open spec fn decoded_private(bytes: Seq<u8>) -> Result<(Algorithm, Seq<u8>), Fault> {
    decoded_private_from(bytes, pem_content(bytes, LINE_WIDTH))
}

/// What an encoded public key container holds: its level and public key.
pub open spec fn decoded_public(bytes: Seq<u8>) -> Result<(Algorithm, Seq<u8>), Fault> {
    decoded_public_from(bytes, pem_content(bytes, LINE_WIDTH))
}

/// The mathematical content of what the text decoder hands back.
pub open spec fn content_view(content: Option<(String, Vec<u8>)>) -> Option<
    (Seq<char>, Seq<u8>),
> {
    match content {
        Some((label, der)) => Some((label@, der@)),
        None => None,
    }
}

/// The envelope that input is in: text where it begins with the boundary,
/// else binary.
pub fn detect(bytes: &[u8]) -> (format: Format)
    ensures
        format == if is_text(bytes@) {
            Format::Pem
        } else {
            Format::Der
        },
{
    if bytes.len() < 11 {
        return Format::Der;
    }
    let mark: [u8; 11] = [0x2d, 0x2d, 0x2d, 0x2d, 0x2d, 0x42, 0x45, 0x47, 0x49, 0x4e, 0x20];
    assert(mark@ =~= boundary());
    assert(bytes@.take(11) =~= bytes@.subrange(0, 11));
    if range_is(bytes, 0, 11, mark.as_slice()) {
        Format::Pem
    } else {
        Format::Der
    }
}

/// Decides on a text that was made for `label` and `der`, given what the
/// text is read back as.
pub fn accept_text(text: Vec<u8>, content: Option<(String, Vec<u8>)>, label: &str, der: &[u8]) -> (r:
    Result<Vec<u8>, CryptoError>)
    ensures
        bytes_outcome(r) == accepted_text(text@, content_view(content), label@, der@),
{
    let reads_back = match detect(text.as_slice()) {
        Format::Der => false,
        Format::Pem => match content {
            None => false,
            Some((found, inner)) => {
                proof {
                    lemma_same_text(found@, label@);
                }
                same_bytes(found.as_str().as_bytes(), label.as_bytes()) && same_bytes(
                    inner.as_slice(),
                    der,
                )
            },
        },
    };
    if reads_back {
        Ok(text)
    } else {
        Err(CryptoError::InvalidFormat("text envelope could not be written".to_owned()))
    }
}

/// Puts structured bytes into the envelope that is asked for.
pub fn seal(format: Format, label: &str, der: Vec<u8>) -> (r: Result<Vec<u8>, CryptoError>)
    ensures
        bytes_outcome(r) == sealed(format, label@, der@),
{
    match format {
        Format::Der => Ok(der),
        Format::Pem => match pem_encode(label, LINE_WIDTH, der.as_slice()) {
            None => Err(CryptoError::InvalidFormat("text envelope could not be written".to_owned())),
            Some(text) => {
                let content = pem_decode(text.as_slice(), LINE_WIDTH);
                accept_text(text, content, label, der.as_slice())
            },
        },
    }
}

/// Takes the structured bytes out of an envelope, given what the text
/// decoder finds in the input.
pub fn unseal_with(bytes: &[u8], content: Option<(String, Vec<u8>)>, label: &str) -> (r: Result<
    Vec<u8>,
    CryptoError,
>)
    ensures
        bytes_outcome(r) == unsealed(bytes@, content_view(content), label@),
{
    match detect(bytes) {
        Format::Der => Ok(vstd::slice::slice_to_vec(bytes)),
        Format::Pem => match content {
            None => Err(CryptoError::InvalidFormat("malformed text envelope".to_owned())),
            Some((found, der)) => {
                proof {
                    lemma_same_text(found@, label@);
                }
                if same_bytes(found.as_str().as_bytes(), label.as_bytes()) {
                    Ok(der)
                } else {
                    Err(CryptoError::InvalidFormat("malformed text envelope".to_owned()))
                }
            },
        },
    }
}

/// Takes the structured bytes out of an envelope.
pub fn unseal(bytes: &[u8], label: &str) -> (r: Result<Vec<u8>, CryptoError>)
    ensures
        bytes_outcome(r) == unsealed(bytes@, pem_content(bytes@, LINE_WIDTH), label@),
{
    let content = match detect(bytes) {
        Format::Der => None,
        Format::Pem => pem_decode(bytes, LINE_WIDTH),
    };
    unseal_with(bytes, content, label)
}

/// Encodes a key pair as a private key container in the given envelope.
pub fn encode_private(algorithm: Algorithm, keypair: &[u8], format: Format) -> (r: Result<
    Vec<u8>,
    CryptoError,
>)
    ensures
        bytes_outcome(r) == encoded_private(algorithm, keypair@, format),
{
    match private_container(algorithm, keypair) {
        Err(e) => Err(e),
        Ok(der) => seal(format, "PRIVATE KEY", der),
    }
}

/// Encodes a public key as a public key container in the given envelope.
pub fn encode_public(algorithm: Algorithm, key: &[u8], format: Format) -> (r: Result<
    Vec<u8>,
    CryptoError,
>)
    ensures
        bytes_outcome(r) == encoded_public(algorithm, key@, format),
{
    match public_container(algorithm, key) {
        Err(e) => Err(e),
        Ok(der) => seal(format, "PUBLIC KEY", der),
    }
}

/// Decodes a private key container, given what the text decoder finds in
/// the input.
pub fn decode_private_from(bytes: &[u8], content: Option<(String, Vec<u8>)>) -> (r: Result<
    (Algorithm, Vec<u8>),
    CryptoError,
>)
    ensures
        key_outcome(r) == decoded_private_from(bytes@, content_view(content)),
{
    match unseal_with(bytes, content, "PRIVATE KEY") {
        Err(e) => Err(e),
        Ok(der) => read_private_container(der.as_slice()),
    }
}

/// Decodes a public key container, given what the text decoder finds in
/// the input.
pub fn decode_public_from(bytes: &[u8], content: Option<(String, Vec<u8>)>) -> (r: Result<
    (Algorithm, Vec<u8>),
    CryptoError,
>)
    ensures
        key_outcome(r) == decoded_public_from(bytes@, content_view(content)),
{
    match unseal_with(bytes, content, "PUBLIC KEY") {
        Err(e) => Err(e),
        Ok(der) => read_public_container(der.as_slice()),
    }
}

/// Decodes a private key container from either envelope: the level that
/// its identifier names, and the key pair.
pub fn decode_private(bytes: &[u8]) -> (r: Result<(Algorithm, Vec<u8>), CryptoError>)
    ensures
        key_outcome(r) == decoded_private(bytes@),
{
    match unseal(bytes, "PRIVATE KEY") {
        Err(e) => Err(e),
        Ok(der) => read_private_container(der.as_slice()),
    }
}

/// Decodes a public key container from either envelope: the level that
/// its identifier names, and the public key.
pub fn decode_public(bytes: &[u8]) -> (r: Result<(Algorithm, Vec<u8>), CryptoError>)
    ensures
        key_outcome(r) == decoded_public(bytes@),
{
    match unseal(bytes, "PUBLIC KEY") {
        Err(e) => Err(e),
        Ok(der) => read_public_container(der.as_slice()),
    }
}

/// Structured bytes of a container begin with the sequence tag, so they
/// are never taken for text: a record is its own binary envelope, whatever
/// it holds.
pub proof fn containers_are_binary(algorithm: Algorithm, content: Seq<u8>)
    ensures
        !is_text(private_frame(algorithm, content)),
        !is_text(public_frame(algorithm, content)),
        envelops(
            private_frame(algorithm, content),
            private_label(),
            private_frame(algorithm, content),
        ),
        envelops(
            public_frame(algorithm, content),
            public_label(),
            public_frame(algorithm, content),
        ),
{
    reveal(private_frame);
    reveal(public_frame);
    let a = private_frame(algorithm, content);
    let b = public_frame(algorithm, content);
    assert(a[0] == TAG_SEQUENCE && b[0] == TAG_SEQUENCE);
    if a.len() >= 11 {
        assert(a.take(11)[0] == a[0]);
    }
    if b.len() >= 11 {
        assert(b.take(11)[0] == b[0]);
    }
    assert(boundary()[0] == 0x2d);
}

/// In the binary envelope a key pair of its level's length is always
/// encoded, as its container's structured bytes.
pub proof fn binary_private_is_encoded(algorithm: Algorithm, keypair: Seq<u8>)
    requires
        keypair.len() == lengths(algorithm).keypair_len,
    ensures
        encoded_private(algorithm, keypair, Format::Der) == Ok::<Seq<u8>, Fault>(
            private_der(algorithm, keypair),
        ),
{
}

/// In the binary envelope a public key of its level's length is always
/// encoded, as its container's structured bytes.
pub proof fn binary_public_is_encoded(algorithm: Algorithm, key: Seq<u8>)
    requires
        key.len() == lengths(algorithm).public_len,
    ensures
        encoded_public(algorithm, key, Format::Der) == Ok::<Seq<u8>, Fault>(
            public_der(algorithm, key),
        ),
{
}

/// Whatever `encode_private` hands out, in either envelope, `decode_private`
/// reads back as the same level and the same key pair; and it is taken for
/// text exactly where text was asked for.
pub proof fn private_round_trip(
    algorithm: Algorithm,
    keypair: Seq<u8>,
    format: Format,
    encoded: Seq<u8>,
)
    requires
        encoded_private(algorithm, keypair, format) == Ok::<Seq<u8>, Fault>(encoded),
    ensures
        decoded_private(encoded) == Ok::<(Algorithm, Seq<u8>), Fault>((algorithm, keypair)),
        is_text(encoded) <==> format == Format::Pem,
{
    private_container_reads_back(algorithm, keypair);
    containers_are_binary(algorithm, crate::container::nested_key(algorithm, keypair));
}

/// Whatever `encode_public` hands out, in either envelope, `decode_public`
/// reads back as the same level and the same public key; and it is taken
/// for text exactly where text was asked for.
pub proof fn public_round_trip(algorithm: Algorithm, key: Seq<u8>, format: Format, encoded: Seq<u8>)
    requires
        encoded_public(algorithm, key, format) == Ok::<Seq<u8>, Fault>(encoded),
    ensures
        decoded_public(encoded) == Ok::<(Algorithm, Seq<u8>), Fault>((algorithm, key)),
        is_text(encoded) <==> format == Format::Pem,
{
    public_container_reads_back(algorithm, key);
    containers_are_binary(algorithm, seq![0u8] + key);
}

/// A record whose identifier names one level around a nested key pair of
/// another length is refused with the length fault in either envelope,
/// whatever marker bytes the nested key carries.
pub proof fn mismatched_length_is_refused_in_either_envelope(
    input: Seq<u8>,
    claimed: Algorithm,
    first: u8,
    second: u8,
    keypair: Seq<u8>,
)
    requires
        keypair.len() != lengths(claimed).keypair_len,
        keypair.len() + 64 < content_limit(),
        envelops(
            input,
            private_label(),
            private_frame(claimed, seq![0x04u8, 0x82u8, first, second] + keypair),
        ),
    ensures
        decoded_private(input) == Err::<(Algorithm, Seq<u8>), Fault>(
            Fault::InvalidLengthSecretKey(keypair.len()),
        ),
{
    mismatched_length_is_refused(claimed, first, second, keypair);
}

} // verus!
