use vstd::prelude::*;

verus! {

#[verifier::external_type_specification]
#[verifier::external_body]
pub struct ExQrCode(qrcodegen::QrCode);

/// Relies on qrcodegen::QrCode::encode_text, at medium error correction:
/// encodes the text as a QR symbol, or fails where the text fits no QR code
/// version.
#[verifier::external_body]
fn qr_encode(text: &str) -> (r: Option<qrcodegen::QrCode>) {
    qrcodegen::QrCode::encode_text(text, qrcodegen::QrCodeEcc::Medium).ok()
}

/// Relies on qrcodegen::QrCode::size: the width and height of the symbol in
/// modules, between 21 and 177 inclusive.
#[verifier::external_body]
fn qr_size(code: &qrcodegen::QrCode) -> (r: i32)
    ensures
        21 <= r <= 177,
{
    code.size()
}

/// Relies on qrcodegen::QrCode::get_module: the colour of the module at the
/// given coordinates, true for dark; false outside the symbol.
#[verifier::external_body]
fn qr_module(code: &qrcodegen::QrCode, x: i32, y: i32) -> bool {
    code.get_module(x, y)
}

/// Reads the whole module grid of a generated symbol, row by row.
fn qr_modules(code: &qrcodegen::QrCode) -> (r: (usize, Vec<bool>))
    ensures
        21 <= r.0 <= 177,
        r.1@.len() == r.0 * r.0,
{
    let size_i = qr_size(code);
    let size = size_i as usize;
    let mut v: Vec<bool> = Vec::new();
    let mut y: usize = 0;
    while y < size
        invariant
            21 <= size <= 177,
            y <= size,
            v@.len() == y * size,
        decreases size - y,
    {
        let mut x: usize = 0;
        while x < size
            invariant
                21 <= size <= 177,
                y < size,
                x <= size,
                v@.len() == y * size + x,
            decreases size - x,
        {
            v.push(qr_module(code, x as i32, y as i32));
            x = x + 1;
        }
        proof {
            assert((y + 1) * size == y * size + size) by (nonlinear_arith);
        }
        y = y + 1;
    }
    (size, v)
}

/// The RGBA image of a module grid, one pixel a module in row order: dark
/// modules are black, light ones white, and every pixel is fully opaque.
pub fn qr_image_data(size: usize, modules: &Vec<bool>) -> (img: Vec<u8>)
    requires
        modules@.len() == size * size,
        size <= 177,
    ensures
        img@.len() == 4 * size * size,
        forall|i: int|
            0 <= i < size * size ==> {
                &&& img@[4 * i] == (if modules@[i] {
                    0u8
                } else {
                    255u8
                })
                &&& img@[4 * i + 1] == (if modules@[i] {
                    0u8
                } else {
                    255u8
                })
                &&& img@[4 * i + 2] == (if modules@[i] {
                    0u8
                } else {
                    255u8
                })
                &&& img@[4 * i + 3] == 255u8
            },
{
    proof {
        assert(size * size <= 177 * 177) by (nonlinear_arith)
            requires
                size <= 177,
        ;
    }
    let n = modules.len();
    let mut img: Vec<u8> = Vec::new();
    let mut i: usize = 0;
    while i < n
        invariant
            n == modules@.len(),
            n == size * size,
            n <= 177 * 177,
            i <= n,
            img@.len() == 4 * i,
            forall|j: int|
                0 <= j < i ==> {
                    &&& img@[4 * j] == (if modules@[j] {
                        0u8
                    } else {
                        255u8
                    })
                    &&& img@[4 * j + 1] == (if modules@[j] {
                        0u8
                    } else {
                        255u8
                    })
                    &&& img@[4 * j + 2] == (if modules@[j] {
                        0u8
                    } else {
                        255u8
                    })
                    &&& img@[4 * j + 3] == 255u8
                },
        decreases n - i,
    {
        let shade: u8 = if modules[i] {
            0
        } else {
            255
        };
        img.push(shade);
        img.push(shade);
        img.push(shade);
        img.push(255);
        i = i + 1;
    }
    proof {
        assert(4 * (size * size) == 4 * size * size) by (nonlinear_arith);
    }
    img
}

/// A QR symbol of a payment-request string (or any other text), held as the
/// text until it is rendered.
pub struct Qr {
    value: String,
}

impl Qr {
    /// The text this symbol encodes.
    pub closed spec fn text(&self) -> Seq<char> {
        self.value@
    }

    pub fn new(value: String) -> (q: Qr)
        ensures
            q.text() == value@,
    {
        Qr { value }
    }

    /// Renders the held text: the module count per side and the RGBA image,
    /// or nothing where the text fits no QR code.
    pub fn image(&self) -> (r: Option<(usize, Vec<u8>)>)
        ensures
            (r matches Some(p) ==> 21 <= p.0 <= 177 && p.1@.len() == 4 * p.0 * p.0),
    {
        match qr_encode(self.value.as_str()) {
            None => None,
            Some(code) => {
                let (size, modules) = qr_modules(&code);
                let img = qr_image_data(size, &modules);
                Some((size, img))
            },
        }
    }
}

} // verus!
