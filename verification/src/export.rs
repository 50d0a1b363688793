//! CSV export: a pure textual snapshot of a buffer, one record per cell in
//! row-major scan order, using the palette for color names.
use crate::buffer::Buffer;
use crate::palette::Colors;
use crate::position::Position;
use vstd::prelude::*;
use vstd::string::StringExecFns;

verus! {

/// The error CSV export returns. Export is all or nothing: no partial text is
/// ever handed back. The encoder itself writes into memory and cannot fail,
/// so the only failure is a color the palette does not name.
#[derive(Debug, PartialEq, Eq, Clone, Copy, Structural)]
pub enum SerializationError {
    /// The cell at `(x, y)` holds `color`, and the palette has no entry for
    /// that index.
    MissingPaletteEntry { x: usize, y: usize, color: u8 },
}

/// The decimal digit character for `d`.
pub open spec fn dec_digit(d: int) -> char
    recommends
        0 <= d < 10,
{
    if d == 0 {
        '0'
    } else if d == 1 {
        '1'
    } else if d == 2 {
        '2'
    } else if d == 3 {
        '3'
    } else if d == 4 {
        '4'
    } else if d == 5 {
        '5'
    } else if d == 6 {
        '6'
    } else if d == 7 {
        '7'
    } else if d == 8 {
        '8'
    } else {
        '9'
    }
}

/// The decimal representation of `n`, most significant digit first.
pub open spec fn dec_digits(n: int) -> Seq<char>
    recommends
        0 <= n,
    decreases n,
{
    if n < 10 {
        seq![dec_digit(n)]
    } else {
        dec_digits(n / 10).push(dec_digit(n % 10))
    }
}

/// Whether every character of `s` is a decimal digit.
pub open spec fn all_digits(s: Seq<char>) -> bool {
    forall|i: int| 0 <= i < s.len() ==> '0' <= #[trigger] s[i] <= '9'
}

/// A decimal representation consists of digits only.
pub proof fn lemma_dec_digits_all_digits(n: int)
    ensures
        all_digits(dec_digits(n)),
        dec_digits(n).len() >= 1,
    decreases n,
{
    if n < 10 {
    } else {
        lemma_dec_digits_all_digits(n / 10);
        assert forall|i: int| 0 <= i < dec_digits(n).len() implies '0' <= #[trigger] dec_digits(
            n,
        )[i] <= '9' by {
            if i < dec_digits(n / 10).len() {
                assert(dec_digits(n)[i] == dec_digits(n / 10)[i]);
            }
        }
    }
}

/// The characters that force a CSV field to be quoted: the field delimiter,
/// the quote itself, and line breaks.
pub open spec fn needs_quoting(s: Seq<char>) -> bool {
    s.contains(',') || s.contains('"') || s.contains('\n') || s.contains('\r')
}

/// `s` with every double quote doubled.
pub open spec fn doubled_quotes(s: Seq<char>) -> Seq<char>
    decreases s.len(),
{
    if s.len() == 0 {
        Seq::empty()
    } else if s[0] == '"' {
        seq!['"', '"'] + doubled_quotes(s.drop_first())
    } else {
        seq![s[0]] + doubled_quotes(s.drop_first())
    }
}

/// A CSV field under the standard quoting convention: left as it is when no
/// character of it forces quoting, otherwise wrapped in double quotes with
/// every inner double quote doubled.
pub open spec fn encoded_field(s: Seq<char>) -> Seq<char> {
    if needs_quoting(s) {
        seq!['"'] + doubled_quotes(s) + seq!['"']
    } else {
        s
    }
}

/// A field of digits only is emitted as it is: nothing in it forces quoting.
pub proof fn lemma_all_digits_unquoted(s: Seq<char>)
    requires
        all_digits(s),
    ensures
        !needs_quoting(s),
        encoded_field(s) == s,
{
    if s.contains(',') {
        let i = choose|i: int| 0 <= i < s.len() && s[i] == ',';
    }
    if s.contains('"') {
        let i = choose|i: int| 0 <= i < s.len() && s[i] == '"';
    }
    if s.contains('\n') {
        let i = choose|i: int| 0 <= i < s.len() && s[i] == '\n';
    }
    if s.contains('\r') {
        let i = choose|i: int| 0 <= i < s.len() && s[i] == '\r';
    }
}

/// One exported record: `x,y,name`, ended by a newline. The decimal
/// coordinates are emitted as they are — digits force no quoting — and the
/// name stands under the standard quoting convention.
pub open spec fn record_line(x: int, y: int, name: Seq<char>) -> Seq<char> {
    dec_digits(x) + seq![','] + dec_digits(y) + seq![','] + encoded_field(name) + seq!['\n']
}

/// The column a flat scan index visits: the scan is row-major, so the
/// horizontal coordinate is the remainder by the width.
pub open spec fn scan_x(w: int, i: int) -> int
    recommends
        0 < w,
{
    i % w
}

/// The row a flat scan index visits.
pub open spec fn scan_y(w: int, i: int) -> int
    recommends
        0 < w,
{
    i / w
}

/// The record the export emits for the cell at flat scan index `i`.
pub open spec fn csv_line_at(b: Buffer, names: Seq<Seq<char>>, i: int) -> Seq<char>
    recommends
        b.wf(),
        0 <= i < b.width() * b.height(),
{
    record_line(
        scan_x(b.width(), i),
        scan_y(b.width(), i),
        names[b.color_at(scan_x(b.width(), i), scan_y(b.width(), i)).0 as int],
    )
}

/// The first `n` records of the export, concatenated.
pub open spec fn csv_prefix(b: Buffer, names: Seq<Seq<char>>, n: nat) -> Seq<char>
    decreases n,
{
    if n == 0 {
        Seq::empty()
    } else {
        csv_prefix(b, names, (n - 1) as nat) + csv_line_at(b, names, n - 1)
    }
}

/// The whole CSV dump of a buffer: one record per cell, in row-major scan
/// order, the same order a full render visits the cells in.
pub open spec fn csv_of(b: Buffer, names: Seq<Seq<char>>) -> Seq<char> {
    csv_prefix(b, names, (b.width() * b.height()) as nat)
}

/// Whether every stored color has a palette entry.
pub open spec fn all_covered(b: Buffer, names: Seq<Seq<char>>) -> bool {
    forall|x: int, y: int|
        b.in_range(x, y) ==> (#[trigger] b.color_at(x, y)).0 < names.len()
}

/// The one-character text of a decimal digit.
fn digit_str(d: usize) -> (r: &'static str)
    requires
        d < 10,
    ensures
        r@ == seq![dec_digit(d as int)],
{
    proof {
        reveal_strlit("0");
        reveal_strlit("1");
        reveal_strlit("2");
        reveal_strlit("3");
        reveal_strlit("4");
        reveal_strlit("5");
        reveal_strlit("6");
        reveal_strlit("7");
        reveal_strlit("8");
        reveal_strlit("9");
    }
    let r = if d == 0 {
        "0"
    } else if d == 1 {
        "1"
    } else if d == 2 {
        "2"
    } else if d == 3 {
        "3"
    } else if d == 4 {
        "4"
    } else if d == 5 {
        "5"
    } else if d == 6 {
        "6"
    } else if d == 7 {
        "7"
    } else if d == 8 {
        "8"
    } else {
        "9"
    };
    proof {
        assert(r@ =~= seq![dec_digit(d as int)]);
    }
    r
}

/// Print `n` in decimal.
pub fn usize_to_string(n: usize) -> (r: String)
    ensures
        r@ == dec_digits(n as int),
    decreases n,
{
    if n < 10 {
        let mut s = String::new();
        s.append(digit_str(n));
        proof {
            assert(s@ =~= dec_digits(n as int));
        }
        s
    } else {
        let mut s = usize_to_string(n / 10);
        s.append(digit_str(n % 10));
        proof {
            assert(s@ =~= dec_digits(n as int));
        }
        s
    }
}

/// Relies on csv::Writer::write_record in its default configuration: it
/// emits the fields separated by commas, quotes a field exactly when the
/// field contains a comma, a double quote or a line break (doubling the inner
/// quotes), and ends the record with a newline. The writer runs over an
/// in-memory buffer, whose writes never fail, a fresh writer sees one record
/// of three fields, so no field-count check trips, and the bytes out of it
/// are UTF-8, so the call always returns the encoded record.
#[verifier::external_body]
fn encode_record(a: &str, b: &str, c: &str) -> (r: String)
    ensures
        r@ == encoded_field(a@) + seq![','] + encoded_field(b@) + seq![','] + encoded_field(c@)
            + seq!['\n'],
{
    let mut w = csv::Writer::from_writer(Vec::new());
    w.write_record([a, b, c]).expect("writing into a Vec cannot fail");
    let bytes = w.into_inner().expect("flushing into a Vec cannot fail");
    String::from_utf8(bytes).expect("the fields are UTF-8 and the separators are ASCII")
}

impl Buffer {
    /// Export the buffer as CSV text: one `x,y,color_name` record per cell,
    /// in row-major scan order (`y` outer, `x` inner). Succeeds exactly when
    /// every stored color has a palette entry; otherwise it fails reporting
    /// the first uncovered cell in scan order, and no partial text is ever
    /// returned.
    pub fn to_csv(&self, colors: &Colors) -> (r: Result<String, SerializationError>)
        requires
            self.wf(),
        ensures
            r is Ok <==> all_covered(*self, colors.names()),
            r matches Ok(s) ==> s@ == csv_of(*self, colors.names()),
            r matches Err(SerializationError::MissingPaletteEntry { x, y, color }) ==> {
                &&& self.in_range(x as int, y as int)
                &&& self.color_at(x as int, y as int).0 == color
                &&& color as int >= colors.names().len()
                &&& forall|xx: int, yy: int|
                    self.in_range(xx, yy) && (yy < y as int || (yy == y as int && xx < x as int))
                        ==> (#[trigger] self.color_at(xx, yy)).0 < colors.names().len()
            },
    {
        let ext = self.extent();
        let w = ext.x;
        let h = ext.y;
        let mut out = String::new();
        let mut y: usize = 0;
        while y < h
            invariant
                self.wf(),
                w as int == self.width(),
                h as int == self.height(),
                y <= h,
                out@ == csv_prefix(*self, colors.names(), (y as int * w as int) as nat),
                forall|xx: int, yy: int|
                    self.in_range(xx, yy) && yy < y as int ==> (#[trigger] self.color_at(
                        xx,
                        yy,
                    )).0 < colors.names().len(),
            decreases h as int - y as int,
        {
            let mut x: usize = 0;
            while x < w
                invariant
                    self.wf(),
                    w as int == self.width(),
                    h as int == self.height(),
                    y < h,
                    x <= w,
                    out@ == csv_prefix(*self, colors.names(), (y as int * w as int + x as int) as nat),
                    forall|xx: int, yy: int|
                        self.in_range(xx, yy) && yy < y as int ==> (#[trigger] self.color_at(
                            xx,
                            yy,
                        )).0 < colors.names().len(),
                    forall|xx: int|
                        0 <= xx < x as int ==> (#[trigger] self.color_at(xx, y as int)).0
                            < colors.names().len(),
                decreases w as int - x as int,
            {
                let pos = Position { x, y };
                let c = self.get_color(pos).unwrap();
                if !((c.0 as usize) < colors.0.len()) {
                    return Err(SerializationError::MissingPaletteEntry { x, y, color: c.0 });
                }
                let name: &String = &colors.0[c.0 as usize];
                let xs = usize_to_string(x);
                let ys = usize_to_string(y);
                let line = encode_record(xs.as_str(), ys.as_str(), name.as_str());
                out.append(line.as_str());
                proof {
                    let wi = w as int;
                    let k = y as int * wi + x as int;
                    vstd::arithmetic::div_mod::lemma_fundamental_div_mod_converse(
                        k,
                        wi,
                        y as int,
                        x as int,
                    );
                    lemma_dec_digits_all_digits(x as int);
                    lemma_all_digits_unquoted(dec_digits(x as int));
                    lemma_dec_digits_all_digits(y as int);
                    lemma_all_digits_unquoted(dec_digits(y as int));
                    assert(line@ == csv_line_at(*self, colors.names(), k));
                    assert(out@ =~= csv_prefix(*self, colors.names(), (k + 1) as nat));
                }
                x += 1;
            }
            y += 1;
            proof {
                assert(y as int * w as int == (y as int - 1) * (w as int) + w as int)
                    by (nonlinear_arith);
            }
        }
        proof {
            assert(h as int * w as int == self.width() * self.height()) by (nonlinear_arith)
                requires
                    w as int == self.width(),
                    h as int == self.height(),
            ;
        }
        Ok(out)
    }
}

} // verus!
