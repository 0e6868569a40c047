use vstd::prelude::*;

use vstd::string::{StringExecFns, StringSliceAdditionalSpecFns};

use barcoders::sym::code128::Code128;

verus! {

/// The longest payload handed to the Code128 encoder. The encoder sums the
/// units of its checksum in an `i32`, each weighted by its position; with
/// unit indices below 106 that sum stays below `i32::MAX` up to this length.
pub const MAX_PAYLOAD_CHARS: usize = 6000;

/// Whether barcoders' Code128 parser accepts `data`.
pub uninterp spec fn code128_accepts(data: Seq<char>) -> bool;

/// The modules barcoders' Code128 encoder produces for `data`.
pub uninterp spec fn code128_modules_of(data: Seq<char>) -> Seq<u8>;

/// Relies on barcoders' `Code128::new`, which parses `data` or refuses it
/// depending on its characters alone, and on `Code128::encode`, which turns
/// the parsed barcode into binary digits, one per module (1 a bar, 0 a
/// space), a function of the parsed data alone.
#[verifier::external_body]
fn code128_modules(data: &str) -> (r: Option<Vec<u8>>)
    requires
        data@.len() <= MAX_PAYLOAD_CHARS,
    ensures
        r.is_some() == code128_accepts(data@),
        r.is_some() ==> r.unwrap()@ == code128_modules_of(data@),
        r.is_some() ==> forall|i: int| 0 <= i < r.unwrap()@.len() ==> r.unwrap()@[i] == 0 || r.unwrap()@[i] == 1,
{
    match Code128::new(data) {
        Ok(code) => Some(code.encode()),
        Err(_) => None,
    }
}

/// Why input could not be turned into a barcode.
#[derive(Clone, Copy, Debug, PartialEq, Eq, Structural)]
pub enum BarcodeError {
    /// The input string is empty.
    EmptyInput,
    /// The input string holds a character outside ASCII.
    NonAscii,
    /// The Code128 encoder refused the data.
    Rejected,
    /// The input string is longer than the encoder takes.
    TooLong,
}

impl BarcodeError {
    /// A sentence describing the error.
    pub fn message(&self) -> (s: String)
        ensures
            s@ == match self {
                BarcodeError::EmptyInput => "Input string cannot be empty"@,
                BarcodeError::NonAscii =>
                    "Input string contains invalid characters. Only ASCII characters are allowed."@,
                BarcodeError::Rejected => "Barcode data is invalid"@,
                BarcodeError::TooLong => "Input string is too long for a Code128 barcode"@,
            },
    {
        match self {
            BarcodeError::EmptyInput => "Input string cannot be empty".to_owned(),
            BarcodeError::NonAscii =>
                "Input string contains invalid characters. Only ASCII characters are allowed.".to_owned(),
            BarcodeError::Rejected => "Barcode data is invalid".to_owned(),
            BarcodeError::TooLong => "Input string is too long for a Code128 barcode".to_owned(),
        }
    }
}

pub open spec fn is_alphanumeric_char(c: char) -> bool {
    ('0' <= c && c <= '9') || ('A' <= c && c <= 'Z') || ('a' <= c && c <= 'z')
}

/// The Code128 start character for `input`: character set A for
/// alphanumeric input, B for any other.
pub open spec fn start_char_spec(input: Seq<char>) -> char {
    if forall|i: int| 0 <= i < input.len() ==> is_alphanumeric_char(#[trigger] input[i]) {
        'À'
    } else {
        'Ɓ'
    }
}

/// What is handed to the Code128 encoder: the start character, then the input.
pub open spec fn payload_spec(input: Seq<char>) -> Seq<char> {
    seq![start_char_spec(input)] + input
}

/// Picks the start character and prefixes it to `input`, after checking
/// that the input is a non-empty ASCII string.
pub fn code128_payload(input: &str) -> (r: Result<String, BarcodeError>)
    ensures
        input@.len() == 0 ==> r == Err::<String, BarcodeError>(BarcodeError::EmptyInput),
        input@.len() > 0 && !input.is_ascii() ==> r == Err::<String, BarcodeError>(
            BarcodeError::NonAscii,
        ),
        input@.len() > 0 && input.is_ascii() ==> r.is_ok() && r.unwrap()@ == payload_spec(input@),
{
    if input.is_empty() {
        return Err(BarcodeError::EmptyInput);
    }
    if !input.is_ascii() {
        return Err(BarcodeError::NonAscii);
    }
    let bytes = input.as_bytes();
    proof {
        vstd::string::is_ascii_spec_bytes(input);
        assert(bytes@ =~= Seq::new(input@.len(), |i: int| input@[i] as u8));
    }
    let mut alphanumeric = true;
    let mut i: usize = 0;
    while i < bytes.len()
        invariant
            bytes@.len() == input@.len(),
            forall|j: int| 0 <= j < input@.len() ==> bytes@[j] == input@[j] as u8,
            vstd::string::is_ascii(input),
            i <= bytes@.len(),
            alphanumeric == forall|j: int| 0 <= j < i ==> is_alphanumeric_char(#[trigger] input@[j]),
        decreases bytes@.len() - i,
    {
        let b = bytes[i];
        proof {
            assert(vstd::utf8::is_ascii_chars(input@));
            assert((input@[i as int] as u32) < 128);
        }
        let ok = (48 <= b && b <= 57) || (65 <= b && b <= 90) || (97 <= b && b <= 122);
        assert(ok == is_alphanumeric_char(input@[i as int]));
        alphanumeric = alphanumeric && ok;
        i = i + 1;
    }
    let start = if alphanumeric {
        "À".to_owned()
    } else {
        "Ɓ".to_owned()
    };
    let payload = start.concat(input);
    proof {
        reveal_strlit("À");
        reveal_strlit("Ɓ");
    }
    assert(payload@ =~= payload_spec(input@));
    Ok(payload)
}

/// The Code128 modules of `input` (see `code128_payload`); too long when the
/// payload would exceed `MAX_PAYLOAD_CHARS`, rejected when the encoder
/// refuses the payload.
pub fn encode_code128(input: &str) -> (r: Result<Vec<u8>, BarcodeError>)
    ensures
        input@.len() == 0 ==> r == Err::<Vec<u8>, BarcodeError>(BarcodeError::EmptyInput),
        input@.len() > 0 && !input.is_ascii() ==> r == Err::<Vec<u8>, BarcodeError>(
            BarcodeError::NonAscii,
        ),
        input@.len() >= MAX_PAYLOAD_CHARS && input.is_ascii() ==> r == Err::<Vec<u8>, BarcodeError>(
            BarcodeError::TooLong,
        ),
        0 < input@.len() < MAX_PAYLOAD_CHARS && input.is_ascii() ==> (r.is_ok() <==> code128_accepts(
            payload_spec(input@),
        )),
        0 < input@.len() < MAX_PAYLOAD_CHARS && input.is_ascii() && !code128_accepts(
            payload_spec(input@),
        ) ==> r == Err::<Vec<u8>, BarcodeError>(BarcodeError::Rejected),
        r.is_ok() ==> r.unwrap()@ == code128_modules_of(payload_spec(input@)),
        r.is_ok() ==> forall|i: int| 0 <= i < r.unwrap()@.len() ==> r.unwrap()@[i] <= 1,
{
    let payload = match code128_payload(input) {
        Ok(p) => p,
        Err(e) => return Err(e),
    };
    let length = input.as_bytes().len();
    proof {
        assert(vstd::string::is_ascii(input));
        vstd::string::is_ascii_spec_bytes(input);
        assert(input.spec_bytes().len() == input@.len());
        assert(length == input@.len());
        assert(payload@.len() == input@.len() + 1);
    }
    if length >= MAX_PAYLOAD_CHARS {
        return Err(BarcodeError::TooLong);
    }
    match code128_modules(payload.as_str()) {
        Some(modules) => Ok(modules),
        None => Err(BarcodeError::Rejected),
    }
}

/// Where a decoded barcode image goes on a canvas: its size after fitting
/// inside the margins, and the offsets that center it.
#[derive(Clone, Copy, Debug, PartialEq, Eq, Structural)]
pub struct BarcodePlacement {
    pub width: u32,
    pub height: u32,
    pub x_offset: u32,
    pub y_offset: u32,
}

/// Fits a `barcode_width` x `barcode_height` image inside a `width` x
/// `height` canvas less `margin` on every side, shrinking it only where it
/// is larger, and centers it; none when the margins leave no room.
pub fn place_barcode(width: u32, height: u32, margin: u32, barcode_width: u32, barcode_height: u32) -> (r:
    Option<BarcodePlacement>)
    ensures
        (2 * margin > width || 2 * margin > height) ==> r.is_none(),
        (2 * margin <= width && 2 * margin <= height) ==> r.is_some() && ({
            let p = r.unwrap();
            let room_x = width - 2 * margin;
            let room_y = height - 2 * margin;
            &&& p.width == if barcode_width <= room_x { barcode_width as int } else { room_x }
            &&& p.height == if barcode_height <= room_y { barcode_height as int } else { room_y }
            &&& p.x_offset == margin + (room_x - p.width) / 2
            &&& p.y_offset == margin + (room_y - p.height) / 2
        }),
{
    let twice = 2 * margin as u64;
    if twice > width as u64 || twice > height as u64 {
        return None;
    }
    let room_x = width - 2 * margin;
    let room_y = height - 2 * margin;
    let w = if barcode_width <= room_x { barcode_width } else { room_x };
    let h = if barcode_height <= room_y { barcode_height } else { room_y };
    Some(BarcodePlacement {
        width: w,
        height: h,
        x_offset: margin + (room_x - w) / 2,
        y_offset: margin + (room_y - h) / 2,
    })
}

} // verus!
