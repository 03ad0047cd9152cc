use vstd::prelude::*;

verus! {

/// Number of rows in every glyph, and so in every rendered icon.
pub const HEIGHT: usize = 5;

/// The character that marks an opaque cell of a glyph.
pub const OPAQUE: char = '\u{2588}';

/// Status code shown when no value could be resolved (a question mark).
pub const ERROR_CODE: u64 = 1337;

/// Status code shown while a value is being fetched (an ellipsis).
pub const PENDING_CODE: u64 = 80085;

/// Status code of the always-full debug device (a smiling face).
pub const DUMMY_CODE: u64 = 43770;

/// One entry of the fixed glyph table.
#[derive(Clone, Copy, Debug, PartialEq, Eq, Structural)]
pub enum Glyph {
    Zero,
    One,
    Two,
    Three,
    Four,
    Five,
    Six,
    Seven,
    Eight,
    Nine,
    QuestionMark,
    Ellipsis,
    SmileyFace,
}

/// The five rows of a glyph, top to bottom.
pub open spec fn glyph_rows(g: Glyph) -> Seq<Seq<char>> {
    match g {
        Glyph::Zero => seq![" ██████  "@, "██  ████ "@, "██ ██ ██ "@, "████  ██ "@, " ██████  "@],
        Glyph::One => seq![" ██ "@, "███ "@, " ██ "@, " ██ "@, " ██ "@],
        Glyph::Two => seq!["██████  "@, "     ██ "@, " █████  "@, "██      "@, "███████ "@],
        Glyph::Three => seq!["██████  "@, "     ██ "@, " █████  "@, "     ██ "@, "██████  "@],
        Glyph::Four => seq!["██   ██ "@, "██   ██ "@, "███████ "@, "     ██ "@, "     ██ "@],
        Glyph::Five => seq!["███████ "@, "██      "@, "███████ "@, "     ██ "@, "███████ "@],
        Glyph::Six => seq![" ██████  "@, "██       "@, "███████  "@, "██    ██ "@, " ██████  "@],
        Glyph::Seven => seq!["███████ "@, "     ██ "@, "    ██  "@, "   ██   "@, "   ██   "@],
        Glyph::Eight => seq![" █████  "@, "██   ██ "@, " █████  "@, "██   ██ "@, " █████  "@],
        Glyph::Nine => seq![" █████  "@, "██   ██ "@, " ██████ "@, "     ██ "@, " █████  "@],
        Glyph::QuestionMark => seq!["██████  "@, "     ██ "@, "  ▄███  "@, "  ▀▀    "@, "  ██    "@],
        Glyph::Ellipsis => seq!["         "@, "         "@, "         "@, "         "@, "██ ██ ██ "@],
        Glyph::SmileyFace => seq!["   ██  "@, "██  ██ "@, "    ██ "@, "██  ██ "@, "   ██  "@],
    }
}

/// Column count of a glyph.
pub open spec fn glyph_width(g: Glyph) -> nat {
    match g {
        Glyph::One => 4,
        Glyph::Six | Glyph::Zero | Glyph::Ellipsis => 9,
        Glyph::SmileyFace => 7,
        _ => 8,
    }
}

/// Every glyph has five rows, all `glyph_width(g)` columns wide.
pub proof fn lemma_glyph_shape(g: Glyph)
    ensures
        glyph_rows(g).len() == HEIGHT,
        forall|r: int| 0 <= r < HEIGHT ==> (#[trigger] glyph_rows(g)[r]).len() == glyph_width(g),
{
    lemma_row_widths(g);
}

proof fn lemma_row_widths(g: Glyph)
    ensures
        forall|r: int| 0 <= r < HEIGHT ==> (#[trigger] glyph_rows(g)[r]).len() == glyph_width(g),
{
    reveal_strlit(" ██████  ");
    reveal_strlit("██  ████ ");
    reveal_strlit("██ ██ ██ ");
    reveal_strlit("████  ██ ");
    reveal_strlit(" ██ ");
    reveal_strlit("███ ");
    reveal_strlit("██████  ");
    reveal_strlit("     ██ ");
    reveal_strlit(" █████  ");
    reveal_strlit("██      ");
    reveal_strlit("███████ ");
    reveal_strlit("██   ██ ");
    reveal_strlit("██       ");
    reveal_strlit("███████  ");
    reveal_strlit("██    ██ ");
    reveal_strlit("    ██  ");
    reveal_strlit("   ██   ");
    reveal_strlit(" ██████ ");
    reveal_strlit("  ▄███  ");
    reveal_strlit("  ▀▀    ");
    reveal_strlit("  ██    ");
    reveal_strlit("         ");
    reveal_strlit("   ██  ");
    reveal_strlit("██  ██ ");
    reveal_strlit("    ██ ");
}

/// The glyph for a decimal digit.
pub open spec fn digit_glyph(d: nat) -> Glyph {
    if d == 0 { Glyph::Zero }
    else if d == 1 { Glyph::One }
    else if d == 2 { Glyph::Two }
    else if d == 3 { Glyph::Three }
    else if d == 4 { Glyph::Four }
    else if d == 5 { Glyph::Five }
    else if d == 6 { Glyph::Six }
    else if d == 7 { Glyph::Seven }
    else if d == 8 { Glyph::Eight }
    else { Glyph::Nine }
}

/// Row `row` of glyph `g`.
pub fn glyph_row(g: Glyph, row: usize) -> (r: &'static str)
    requires
        row < HEIGHT,
    ensures
        r@ == glyph_rows(g)[row as int],
{
    let rows: [&'static str; 5] = match g {
        Glyph::Zero => [" ██████  ", "██  ████ ", "██ ██ ██ ", "████  ██ ", " ██████  "],
        Glyph::One => [" ██ ", "███ ", " ██ ", " ██ ", " ██ "],
        Glyph::Two => ["██████  ", "     ██ ", " █████  ", "██      ", "███████ "],
        Glyph::Three => ["██████  ", "     ██ ", " █████  ", "     ██ ", "██████  "],
        Glyph::Four => ["██   ██ ", "██   ██ ", "███████ ", "     ██ ", "     ██ "],
        Glyph::Five => ["███████ ", "██      ", "███████ ", "     ██ ", "███████ "],
        Glyph::Six => [" ██████  ", "██       ", "███████  ", "██    ██ ", " ██████  "],
        Glyph::Seven => ["███████ ", "     ██ ", "    ██  ", "   ██   ", "   ██   "],
        Glyph::Eight => [" █████  ", "██   ██ ", " █████  ", "██   ██ ", " █████  "],
        Glyph::Nine => [" █████  ", "██   ██ ", " ██████ ", "     ██ ", " █████  "],
        Glyph::QuestionMark => ["██████  ", "     ██ ", "  ▄███  ", "  ▀▀    ", "  ██    "],
        Glyph::Ellipsis => ["         ", "         ", "         ", "         ", "██ ██ ██ "],
        Glyph::SmileyFace => ["   ██  ", "██  ██ ", "    ██ ", "██  ██ ", "   ██  "],
    };
    rows[row]
}

/// Decimal digits of `n`, most significant first; zero is the single digit 0.
pub open spec fn digits_of(n: nat) -> Seq<nat>
    decreases n,
{
    if n < 10 {
        seq![n]
    } else {
        digits_of(n / 10).push(n % 10)
    }
}

/// Whether `n` is one of the three reserved status codes.
pub open spec fn is_sentinel(n: u64) -> bool {
    n == ERROR_CODE || n == PENDING_CODE || n == DUMMY_CODE
}

/// The glyphs that render `n`: a reserved code's own glyph, else one glyph per
/// decimal digit.
pub open spec fn glyphs_of(n: u64) -> Seq<Glyph> {
    if n == ERROR_CODE {
        seq![Glyph::QuestionMark]
    } else if n == PENDING_CODE {
        seq![Glyph::Ellipsis]
    } else if n == DUMMY_CODE {
        seq![Glyph::SmileyFace]
    } else {
        digits_of(n as nat).map_values(|d: nat| digit_glyph(d))
    }
}

/// Row `row` of the glyphs `gs` laid side by side with no gap.
pub open spec fn raster_row(gs: Seq<Glyph>, row: int) -> Seq<char>
    decreases gs.len(),
{
    if gs.len() == 0 {
        seq![]
    } else {
        raster_row(gs.drop_last(), row) + glyph_rows(gs.last())[row]
    }
}

/// Sum of the widths of the glyphs `gs`.
pub open spec fn total_width(gs: Seq<Glyph>) -> nat
    decreases gs.len(),
{
    if gs.len() == 0 {
        0
    } else {
        total_width(gs.drop_last()) + glyph_width(gs.last())
    }
}

/// The first `k` raster rows of `gs`, separated by newlines.
pub open spec fn art_upto(gs: Seq<Glyph>, k: int) -> Seq<char>
    decreases k,
{
    if k <= 0 {
        seq![]
    } else if k == 1 {
        raster_row(gs, 0)
    } else {
        art_upto(gs, k - 1).push('\n') + raster_row(gs, k - 1)
    }
}

/// The text art of `n`: its raster rows joined by newlines.
pub open spec fn art_of(n: u64) -> Seq<char> {
    art_upto(glyphs_of(n), HEIGHT as int)
}

spec fn pow10(k: nat) -> nat
    decreases k,
{
    if k == 0 {
        1
    } else {
        10 * pow10((k - 1) as nat)
    }
}

proof fn lemma_digits_len(n: nat, k: nat)
    requires
        1 <= k,
        n < pow10(k),
    ensures
        digits_of(n).len() <= k,
    decreases n,
{
    if n >= 10 {
        if k == 1 {
            assert(pow10(1) == 10) by { reveal_with_fuel(pow10, 2); }
        } else {
            lemma_digits_len(n / 10, (k - 1) as nat);
        }
    }
}

proof fn lemma_digits_bounded(n: nat)
    ensures
        forall|i: int| 0 <= i < digits_of(n).len() ==> #[trigger] digits_of(n)[i] < 10,
        1 <= digits_of(n).len(),
    decreases n,
{
    if n >= 10 {
        lemma_digits_bounded(n / 10);
    }
}

proof fn lemma_u64_digits(n: u64)
    ensures
        forall|i: int| 0 <= i < digits_of(n as nat).len() ==> #[trigger] digits_of(n as nat)[i] < 10,
        1 <= digits_of(n as nat).len() <= 20,
{
    lemma_digits_bounded(n as nat);
    assert(pow10(20) == 100000000000000000000) by {
        reveal_with_fuel(pow10, 21);
    }
    lemma_digits_len(n as nat, 20);
}

/// Decimal digits of `n`, most significant first.
fn decimal_digits(n: u64) -> (r: Vec<u8>)
    ensures
        r@.len() == digits_of(n as nat).len(),
        forall|i: int| 0 <= i < r@.len() ==> r@[i] as nat == #[trigger] digits_of(n as nat)[i],
    decreases n,
{
    if n < 10 {
        vec![n as u8]
    } else {
        let mut v = decimal_digits(n / 10);
        v.push((n % 10) as u8);
        v
    }
}

fn digit_to_glyph(d: u8) -> (g: Glyph)
    ensures
        g == digit_glyph(d as nat),
{
    match d {
        0 => Glyph::Zero,
        1 => Glyph::One,
        2 => Glyph::Two,
        3 => Glyph::Three,
        4 => Glyph::Four,
        5 => Glyph::Five,
        6 => Glyph::Six,
        7 => Glyph::Seven,
        8 => Glyph::Eight,
        _ => Glyph::Nine,
    }
}

proof fn lemma_glyph_count(n: u64)
    ensures
        1 <= glyphs_of(n).len() <= 20,
{
    lemma_u64_digits(n);
}

/// The glyph sequence that renders `number`.
pub fn glyphs_for(number: u64) -> (r: Vec<Glyph>)
    ensures
        r@ == glyphs_of(number),
        1 <= r@.len() <= 20,
{
    if number == ERROR_CODE {
        return vec![Glyph::QuestionMark];
    } else if number == PENDING_CODE {
        return vec![Glyph::Ellipsis];
    } else if number == DUMMY_CODE {
        return vec![Glyph::SmileyFace];
    }
    proof {
        lemma_u64_digits(number);
    }
    let digits = decimal_digits(number);
    let mut glyphs: Vec<Glyph> = Vec::new();
    let mut i: usize = 0;
    while i < digits.len()
        invariant
            i <= digits@.len(),
            digits@.len() == digits_of(number as nat).len(),
            forall|k: int| 0 <= k < digits@.len() ==> digits@[k] as nat == #[trigger] digits_of(number as nat)[k],
            glyphs@ == digits_of(number as nat).map_values(|d: nat| digit_glyph(d)).take(i as int),
        decreases digits.len() - i,
    {
        glyphs.push(digit_to_glyph(digits[i]));
        i += 1;
        assert(glyphs@ =~= digits_of(number as nat).map_values(|d: nat| digit_glyph(d)).take(i as int));
    }
    assert(glyphs@ =~= glyphs_of(number));
    glyphs
}

proof fn lemma_raster_width(gs: Seq<Glyph>, row: int)
    requires
        0 <= row < HEIGHT,
    ensures
        raster_row(gs, row).len() == total_width(gs),
    decreases gs.len(),
{
    if gs.len() > 0 {
        lemma_raster_width(gs.drop_last(), row);
        lemma_glyph_shape(gs.last());
    }
}

proof fn lemma_raster_push(gs: Seq<Glyph>, j: int, row: int)
    requires
        0 <= j < gs.len(),
    ensures
        raster_row(gs.take(j + 1), row) == raster_row(gs.take(j), row) + glyph_rows(gs[j])[row],
{
    assert(gs.take(j + 1).drop_last() =~= gs.take(j));
}

/// Renders `number` as text art: five rows joined by newlines, the reserved
/// codes as their own glyph, every other value as its decimal digits.
pub fn number_to_art(number: u64) -> (art: String)
    ensures
        art@ == art_of(number),
{
    let glyphs = glyphs_for(number);
    let mut art = String::new();
    let mut row: usize = 0;
    while row < HEIGHT
        invariant
            row <= HEIGHT,
            glyphs@ == glyphs_of(number),
            art@ == art_upto(glyphs@, row as int),
        decreases HEIGHT - row,
    {
        if row > 0 {
            art.append("\n");
            proof {
                reveal_strlit("\n");
            }
        }
        let ghost start = art@;
        let mut j: usize = 0;
        while j < glyphs.len()
            invariant
                row < HEIGHT,
                j <= glyphs@.len(),
                art@ == start + raster_row(glyphs@.take(j as int), row as int),
            decreases glyphs.len() - j,
        {
            proof {
                lemma_raster_push(glyphs@, j as int, row as int);
            }
            art.append(glyph_row(glyphs[j], row));
            j += 1;
        }
        assert(glyphs@.take(glyphs@.len() as int) =~= glyphs@);
        row += 1;
    }
    art
}

/// The four RGBA bytes of one cell: opaque white for the opaque marker,
/// transparent black for anything else.
pub open spec fn cell_pixel(c: char) -> Seq<u8> {
    if c == OPAQUE {
        seq![255u8, 255u8, 255u8, 255u8]
    } else {
        seq![0u8, 0u8, 0u8, 0u8]
    }
}

/// The RGBA bytes of a row of cells, left to right.
pub open spec fn row_pixels(s: Seq<char>) -> Seq<u8>
    decreases s.len(),
{
    if s.len() == 0 {
        seq![]
    } else {
        row_pixels(s.drop_last()) + cell_pixel(s.last())
    }
}

/// The RGBA bytes of the first `k` raster rows of `gs`, top to bottom.
pub open spec fn pixels_upto(gs: Seq<Glyph>, k: int) -> Seq<u8>
    decreases k,
{
    if k <= 0 {
        seq![]
    } else {
        pixels_upto(gs, k - 1) + row_pixels(raster_row(gs, k - 1))
    }
}

/// An RGBA image: `width * height` pixels of four bytes, row by row.
pub struct Bitmap {
    pub pixels: Vec<u8>,
    pub width: usize,
    pub height: usize,
}

/// `b` is the rendering of `number`: the raster of its glyphs, `HEIGHT` rows
/// high and as wide as its glyphs together.
pub open spec fn renders(number: u64, b: Bitmap) -> bool {
    &&& b.height == HEIGHT
    &&& b.width == total_width(glyphs_of(number))
    &&& b.pixels@ == pixels_upto(glyphs_of(number), HEIGHT as int)
    &&& b.pixels@.len() == 4 * b.width * b.height
}

proof fn lemma_row_pixels_append(a: Seq<char>, b: Seq<char>)
    ensures
        row_pixels(a + b) == row_pixels(a) + row_pixels(b),
    decreases b.len(),
{
    if b.len() == 0 {
        assert(a + b =~= a);
        assert(row_pixels(a) + row_pixels(b) =~= row_pixels(a));
    } else {
        lemma_row_pixels_append(a, b.drop_last());
        assert((a + b).drop_last() =~= a + b.drop_last());
        assert(row_pixels(a + b) =~= row_pixels(a) + row_pixels(b));
    }
}

proof fn lemma_row_pixels_len(s: Seq<char>)
    ensures
        row_pixels(s).len() == 4 * s.len(),
    decreases s.len(),
{
    if s.len() > 0 {
        lemma_row_pixels_len(s.drop_last());
    }
}

proof fn lemma_pixels_len(gs: Seq<Glyph>, k: int)
    requires
        0 <= k <= HEIGHT,
    ensures
        pixels_upto(gs, k).len() == 4 * total_width(gs) * k,
    decreases k,
{
    if k > 0 {
        lemma_pixels_len(gs, k - 1);
        lemma_raster_width(gs, k - 1);
        lemma_row_pixels_len(raster_row(gs, k - 1));
        assert(4 * total_width(gs) * k == 4 * total_width(gs) * (k - 1) + 4 * total_width(gs)) by (nonlinear_arith);
    } else {
        assert(4 * total_width(gs) * k == 0) by (nonlinear_arith)
            requires
                k == 0,
        ;
    }
}

proof fn lemma_total_width_bound(gs: Seq<Glyph>)
    ensures
        total_width(gs) <= 9 * gs.len(),
    decreases gs.len(),
{
    if gs.len() > 0 {
        lemma_total_width_bound(gs.drop_last());
    }
}

fn push_cell(pixels: &mut Vec<u8>, c: char)
    ensures
        final(pixels)@ == old(pixels)@ + cell_pixel(c),
{
    let v: u8 = if c == OPAQUE { 255 } else { 0 };
    pixels.push(v);
    pixels.push(v);
    pixels.push(v);
    pixels.push(v);
    assert(final(pixels)@ =~= old(pixels)@ + cell_pixel(c));
}

/// Renders `number` as an RGBA bitmap, one pixel per cell of its text art.
pub fn render(number: u64) -> (b: Bitmap)
    ensures
        renders(number, b),
{
    let glyphs = glyphs_for(number);
    let mut pixels: Vec<u8> = Vec::new();
    let mut width: usize = 0;
    let mut j: usize = 0;
    proof {
        lemma_total_width_bound(glyphs@);
    }
    while j < glyphs.len()
        invariant
            j <= glyphs@.len() <= 20,
            width == total_width(glyphs@.take(j as int)),
            total_width(glyphs@.take(j as int)) <= 9 * j,
        decreases glyphs.len() - j,
    {
        proof {
            assert(glyphs@.take(j + 1).drop_last() =~= glyphs@.take(j as int));
            lemma_glyph_shape(glyphs@[j as int]);
        }
        width = width + glyph_row(glyphs[j], 0).unicode_len();
        j += 1;
    }
    assert(glyphs@.take(glyphs@.len() as int) =~= glyphs@);
    let mut row: usize = 0;
    while row < HEIGHT
        invariant
            row <= HEIGHT,
            glyphs@ == glyphs_of(number),
            pixels@ == pixels_upto(glyphs@, row as int),
        decreases HEIGHT - row,
    {
        let ghost start = pixels@;
        let mut j: usize = 0;
        while j < glyphs.len()
            invariant
                row < HEIGHT,
                j <= glyphs@.len(),
                pixels@ == start + row_pixels(raster_row(glyphs@.take(j as int), row as int)),
            decreases glyphs.len() - j,
        {
            let cells = glyph_row(glyphs[j], row);
            let n = cells.unicode_len();
            let ghost mid = pixels@;
            let mut i: usize = 0;
            while i < n
                invariant
                    i <= n == cells@.len(),
                    pixels@ == mid + row_pixels(cells@.take(i as int)),
                decreases n - i,
            {
                let c = cells.get_char(i);
                proof {
                    assert(cells@.take(i + 1).drop_last() =~= cells@.take(i as int));
                }
                push_cell(&mut pixels, c);
                i += 1;
            }
            proof {
                assert(cells@.take(n as int) =~= cells@);
                lemma_raster_push(glyphs@, j as int, row as int);
                lemma_row_pixels_append(raster_row(glyphs@.take(j as int), row as int), cells@);
            }
            j += 1;
        }
        assert(glyphs@.take(glyphs@.len() as int) =~= glyphs@);
        row += 1;
    }
    proof {
        lemma_pixels_len(glyphs@, HEIGHT as int);
    }
    Bitmap { pixels, width, height: HEIGHT }
}

#[verifier::external_type_specification]
#[verifier::external_body]
pub struct ExPngError(lodepng::Error);

/// The PNG file that lodepng writes for 8-bit RGBA `pixels` of the given size.
pub uninterp spec fn png_of(pixels: Seq<u8>, width: nat, height: nat) -> Seq<u8>;

/// Relies on lodepng::encode_memory with `ColorType::RGBA` at 8 bits: its
/// bytes depend on the pixels and the size alone. It checks that the buffer
/// holds `4 * width * height` bytes and that both sides fit in `u32`; with
/// both sides non-zero and a small image it fails only where memory runs out.
#[verifier::external_body]
fn encode_rgba(pixels: &Vec<u8>, width: usize, height: usize) -> (r: Result<Vec<u8>, lodepng::Error>)
    requires
        pixels@.len() == 4 * width * height,
        width <= u32::MAX,
        height <= u32::MAX,
    ensures
        r matches Ok(bytes) ==> bytes@ == png_of(pixels@, width as nat, height as nat),
        0 < width && 0 < height && pixels@.len() <= 1_000_000 ==> r is Ok,
{
    lodepng::encode_memory(pixels.as_slice(), width, height, lodepng::ColorType::RGBA, 8)
}

proof fn lemma_total_width_positive(gs: Seq<Glyph>)
    requires
        gs.len() > 0,
    ensures
        total_width(gs) > 0,
{
}

/// Renders `number` and encodes the bitmap as a PNG file.
pub fn number_to_image(number: u64) -> (r: Vec<u8>)
    ensures
        r@ == png_of(
            pixels_upto(glyphs_of(number), HEIGHT as int),
            total_width(glyphs_of(number)),
            HEIGHT as nat,
        ),
{
    let bitmap = render(number);
    proof {
        lemma_glyph_count(number);
        lemma_total_width_bound(glyphs_of(number));
        lemma_total_width_positive(glyphs_of(number));
        assert(bitmap.pixels@.len() <= 3600) by (nonlinear_arith)
            requires
                bitmap.pixels@.len() == 4 * bitmap.width * bitmap.height,
                bitmap.width <= 180,
                bitmap.height == 5,
        ;
    }
    match encode_rgba(&bitmap.pixels, bitmap.width, bitmap.height) {
        Ok(bytes) => bytes,
        Err(_) => {
            assert(false);
            Vec::new()
        },
    }
}

/// Two encodings of one value are the same bytes.
pub proof fn lemma_image_deterministic(n: u64, a: Seq<u8>, b: Seq<u8>)
    requires
        a == png_of(pixels_upto(glyphs_of(n), HEIGHT as int), total_width(glyphs_of(n)), HEIGHT as nat),
        b == png_of(pixels_upto(glyphs_of(n), HEIGHT as int), total_width(glyphs_of(n)), HEIGHT as nat),
    ensures
        a == b,
{
}

/// Sum of the glyph widths of the decimal digits `ds`.
pub open spec fn digits_width(ds: Seq<nat>) -> nat
    decreases ds.len(),
{
    if ds.len() == 0 {
        0
    } else {
        digits_width(ds.drop_last()) + glyph_width(digit_glyph(ds.last()))
    }
}

proof fn lemma_mapped_width(ds: Seq<nat>)
    ensures
        total_width(ds.map_values(|d: nat| digit_glyph(d))) == digits_width(ds),
    decreases ds.len(),
{
    if ds.len() > 0 {
        lemma_mapped_width(ds.drop_last());
        assert(ds.map_values(|d: nat| digit_glyph(d)).drop_last() =~= ds.drop_last().map_values(
            |d: nat| digit_glyph(d),
        ));
    }
}

/// A value that is not a reserved code renders exactly as wide as the glyphs
/// of its decimal digits together, and `HEIGHT` rows high.
pub proof fn lemma_render_width(n: u64, b: Bitmap)
    requires
        !is_sentinel(n),
        renders(n, b),
    ensures
        b.width == digits_width(digits_of(n as nat)),
        b.height == HEIGHT,
{
    lemma_mapped_width(digits_of(n as nat));
}

/// Rendering is a function of the value: two renderings of one value agree
/// byte for byte.
pub proof fn lemma_render_deterministic(n: u64, a: Bitmap, b: Bitmap)
    requires
        renders(n, a),
        renders(n, b),
    ensures
        a.pixels@ == b.pixels@,
        a.width == b.width,
        a.height == b.height,
{
}

proof fn lemma_row_pixels_index(s: Seq<char>, i: int)
    requires
        0 <= i < s.len(),
    ensures
        row_pixels(s)[4 * i] == cell_pixel(s[i])[0],
    decreases s.len(),
{
    lemma_row_pixels_len(s.drop_last());
    if i < s.len() - 1 {
        lemma_row_pixels_index(s.drop_last(), i);
    }
}

proof fn lemma_single_glyph(g: Glyph)
    ensures
        total_width(seq![g]) == glyph_width(g),
        forall|row: int| #[trigger] raster_row(seq![g], row) == glyph_rows(g)[row],
{
    let gs = seq![g];
    assert(gs.drop_last() =~= Seq::<Glyph>::empty());
    assert(total_width(Seq::<Glyph>::empty()) == 0);
    assert forall|row: int| #[trigger] raster_row(gs, row) == glyph_rows(g)[row] by {
        assert(raster_row(Seq::<Glyph>::empty(), row) == Seq::<char>::empty());
        assert(Seq::<char>::empty() + glyph_rows(g)[row] =~= glyph_rows(g)[row]);
    }
}

proof fn lemma_single_glyph_byte(g: Glyph, i: int)
    requires
        0 <= i < glyph_width(g),
    ensures
        pixels_upto(seq![g], HEIGHT as int)[4 * glyph_width(g) + 4 * i] == cell_pixel(
            glyph_rows(g)[1][i],
        )[0],
{
    let gs = seq![g];
    let w = glyph_width(g);
    lemma_single_glyph(g);
    lemma_glyph_shape(g);
    lemma_raster_width(gs, 0);
    lemma_raster_width(gs, 1);
    lemma_row_pixels_len(raster_row(gs, 0));
    lemma_row_pixels_index(raster_row(gs, 1), i);
    lemma_pixels_len(gs, 2);
    lemma_pixels_len(gs, 3);
    lemma_pixels_len(gs, 4);
    assert(pixels_upto(gs, 0) == Seq::<u8>::empty());
    assert(pixels_upto(gs, 1) =~= row_pixels(raster_row(gs, 0)));
}

/// The value zero renders as a non-empty bitmap that differs from the
/// rendering of every other single digit.
pub proof fn lemma_zero_distinct(d: u64, zero: Bitmap, other: Bitmap)
    requires
        1 <= d <= 9,
        renders(0, zero),
        renders(d, other),
    ensures
        zero.pixels@.len() > 0,
        zero.pixels@ != other.pixels@,
{
    let dg = digit_glyph(d as nat);
    assert(glyphs_of(0) =~= seq![Glyph::Zero]);
    assert(glyphs_of(d) =~= seq![dg]);
    lemma_single_glyph(Glyph::Zero);
    lemma_single_glyph(dg);
    if d == 6 {
        lemma_single_glyph_byte(Glyph::Zero, 4);
        lemma_single_glyph_byte(Glyph::Six, 4);
        lemma_row_widths(Glyph::Zero);
        lemma_row_widths(Glyph::Six);
        reveal_strlit("\u{2588}\u{2588}  \u{2588}\u{2588}\u{2588}\u{2588} ");
        reveal_strlit("\u{2588}\u{2588}       ");
        assert(zero.pixels@[52] != other.pixels@[52]);
    }
}

/// Each reserved code renders as its own single glyph, and the three
/// renderings differ from one another.
pub proof fn lemma_sentinels_distinct(error: Bitmap, pending: Bitmap, dummy: Bitmap)
    requires
        renders(ERROR_CODE, error),
        renders(PENDING_CODE, pending),
        renders(DUMMY_CODE, dummy),
    ensures
        glyphs_of(ERROR_CODE) == seq![Glyph::QuestionMark],
        glyphs_of(PENDING_CODE) == seq![Glyph::Ellipsis],
        glyphs_of(DUMMY_CODE) == seq![Glyph::SmileyFace],
        error.pixels@ != pending.pixels@,
        error.pixels@ != dummy.pixels@,
        pending.pixels@ != dummy.pixels@,
{
    lemma_single_glyph(Glyph::QuestionMark);
    lemma_single_glyph(Glyph::Ellipsis);
    lemma_single_glyph(Glyph::SmileyFace);
}

/// For a value that is not a reserved code, each of the five rows of its text
/// art is as wide as the glyphs of its decimal digits together.
pub proof fn lemma_art_row_width(n: u64, row: int)
    requires
        !is_sentinel(n),
        0 <= row < HEIGHT,
    ensures
        art_of(n) == art_upto(glyphs_of(n), HEIGHT as int),
        raster_row(glyphs_of(n), row).len() == digits_width(digits_of(n as nat)),
{
    lemma_raster_width(glyphs_of(n), row);
    lemma_mapped_width(digits_of(n as nat));
}

} // verus!
