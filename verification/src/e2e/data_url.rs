//! Pages that are written into their own address.

use crate::e2e::markup::REACT_FIXTURE_HTML;
use crate::e2e::profile::{
    fixture_text, known_fixture, native_test_fixture_html, NativeFixtures,
};
use base64::Engine;
use vstd::prelude::*;
use vstd::utf8::encode_utf8;

verus! {

/// The character that stands for six bits.
pub open spec fn letter(n: nat) -> char {
    if n < 26 {
        ('A' as u32 + n) as char
    } else if n < 52 {
        ('a' as u32 + (n - 26)) as char
    } else if n < 62 {
        ('0' as u32 + (n - 52)) as char
    } else if n == 62 {
        '+'
    } else {
        '/'
    }
}

/// The base64 text of some bytes: four characters for every three of them, with
/// equals signs for those that are missing at the end.
pub open spec fn base64_text(bytes: Seq<u8>) -> Seq<char>
    decreases bytes.len(),
{
    if bytes.len() == 0 {
        Seq::empty()
    } else if bytes.len() == 1 {
        seq![letter(bytes[0] as nat / 4), letter(bytes[0] as nat % 4 * 16), '=', '=']
    } else if bytes.len() == 2 {
        seq![
            letter(bytes[0] as nat / 4),
            letter(bytes[0] as nat % 4 * 16 + bytes[1] as nat / 16),
            letter(bytes[1] as nat % 16 * 4),
            '=',
        ]
    } else {
        seq![
            letter(bytes[0] as nat / 4),
            letter(bytes[0] as nat % 4 * 16 + bytes[1] as nat / 16),
            letter(bytes[1] as nat % 16 * 4 + bytes[2] as nat / 64),
            letter(bytes[2] as nat % 64),
        ] + base64_text(bytes.skip(3))
    }
}

/// The length of the base64 text of so many bytes.
pub open spec fn base64_length(n: nat) -> nat {
    (n + 2) / 3 * 4
}

/// `base64::Engine::encode` of the engine `STANDARD`: the text of the bytes in
/// the standard alphabet, with padding. The text has to fit into memory.
#[verifier::external_body]
fn encode_standard(bytes: &[u8]) -> (r: String)
    requires
        base64_length(bytes@.len()) <= isize::MAX,
    ensures
        r@ == base64_text(bytes@),
{
    base64::engine::general_purpose::STANDARD.encode(bytes)
}

/// The address that a page is written into.
pub open spec fn data_url(html: Seq<char>) -> Seq<char> {
    "data:text/html;base64,"@ + base64_text(encode_utf8(html))
}

/// Whether a page can be written into an address, which has to fit into memory.
pub open spec fn fits_in_url(html: Seq<char>) -> bool {
    base64_length(encode_utf8(html).len()) <= isize::MAX
}

/// Whether a page can be written into an address.
pub fn can_be_data_url(html: &str) -> (r: bool)
    ensures
        r == fits_in_url(html@),
{
    let n: usize = html.as_bytes().len();
    let groups: usize = n / 3 + if n % 3 == 0 {
        0
    } else {
        1
    };
    groups <= isize::MAX as usize / 4
}

/// The address that a page is written into.
pub fn html_data_url(html: &str) -> (r: String)
    requires
        fits_in_url(html@),
    ensures
        r@ == data_url(html@),
{
    "data:text/html;base64,".to_owned().concat(encode_standard(html.as_bytes()).as_str())
}

/// The address of a fixture page.
pub fn native_test_fixture_url(fixtures: &NativeFixtures, name: &str) -> (r: String)
    requires
        known_fixture(name@),
        fits_in_url(fixture_text(*fixtures, name@)),
    ensures
        r@ == data_url(fixture_text(*fixtures, name@)),
{
    html_data_url(native_test_fixture_html(fixtures, name))
}

proof fn lemma_bytes_of_chars(s: Seq<char>)
    ensures
        encode_utf8(s).len() <= 4 * s.len(),
    decreases s.len(),
{
    if s.len() > 0 {
        lemma_bytes_of_chars(s.drop_first());
    }
}

/// The address of a small React application.
pub fn react_fixture_url() -> (r: String)
    ensures
        r@ == data_url(REACT_FIXTURE_HTML@),
{
    proof {
        lemma_bytes_of_chars(REACT_FIXTURE_HTML@);
        reveal_strlit(r#"<!doctype html>
<html>
  <head><title>React fixture</title></head>
  <body>
    <div id="root"></div>
    <script crossorigin src="https://unpkg.com/react@18/umd/react.production.min.js"></script>
    <script crossorigin src="https://unpkg.com/react-dom@18/umd/react-dom.production.min.js"></script>
    <script>
      const { useState, createElement: h } = React;
      function Counter({ label }) {
        const [n, setN] = useState(0);
        return h("button", { onClick: () => setN(n + 1) }, label + ": " + n);
      }
      function App() {
        return h("div", {}, [
          h("h1", { key: "t" }, "Hello"),
          h(Counter, { key: "c1", label: "A" }),
          h(Counter, { key: "c2", label: "B" }),
        ]);
      }
      ReactDOM.createRoot(document.getElementById("root")).render(h(App));
    </script>
  </body>
</html>
"#);
    }
    html_data_url(REACT_FIXTURE_HTML)
}

/// The six bits that a character stands for.
pub open spec fn six_bits(c: char) -> nat {
    if 'A' <= c <= 'Z' {
        (c as u32 - 'A' as u32) as nat
    } else if 'a' <= c <= 'z' {
        (c as u32 - 'a' as u32 + 26) as nat
    } else if '0' <= c <= '9' {
        (c as u32 - '0' as u32 + 52) as nat
    } else if c == '+' {
        62
    } else {
        63
    }
}

/// The bytes that a base64 text stands for.
pub open spec fn base64_bytes(s: Seq<char>) -> Seq<u8>
    decreases s.len(),
{
    if s.len() < 4 {
        Seq::empty()
    } else {
        let first = (six_bits(s[0]) * 4 + six_bits(s[1]) / 16) as u8;
        let second = (six_bits(s[1]) % 16 * 16 + six_bits(s[2]) / 4) as u8;
        let third = (six_bits(s[2]) % 4 * 64 + six_bits(s[3])) as u8;
        if s[2] == '=' {
            seq![first]
        } else if s[3] == '=' {
            seq![first, second]
        } else {
            seq![first, second, third] + base64_bytes(s.skip(4))
        }
    }
}

proof fn lemma_letter(n: nat)
    requires
        n < 64,
    ensures
        six_bits(letter(n)) == n,
        letter(n) != '=',
{
}

/// The base64 text of some bytes stands for those bytes.
pub proof fn base64_reads_back(bytes: Seq<u8>)
    ensures
        base64_bytes(base64_text(bytes)) == bytes,
        base64_text(bytes).len() == base64_length(bytes.len()),
    decreases bytes.len(),
{
    let s = base64_text(bytes);
    if bytes.len() > 0 {
        lemma_letter(bytes[0] as nat / 4);
        if bytes.len() == 1 {
            lemma_letter(bytes[0] as nat % 4 * 16);
            assert(base64_bytes(s) =~= bytes);
        } else {
            lemma_letter(bytes[0] as nat % 4 * 16 + bytes[1] as nat / 16);
            if bytes.len() == 2 {
                lemma_letter(bytes[1] as nat % 16 * 4);
                assert(base64_bytes(s) =~= bytes);
            } else {
                lemma_letter(bytes[1] as nat % 16 * 4 + bytes[2] as nat / 64);
                lemma_letter(bytes[2] as nat % 64);
                base64_reads_back(bytes.skip(3));
                assert(s.skip(4) =~= base64_text(bytes.skip(3)));
                assert(base64_bytes(s) =~= bytes);
            }
        }
    } else {
        assert(base64_bytes(s) =~= bytes);
    }
}

/// A page can be read back from the address that it is written into.
pub proof fn data_urls_carry_the_page(html: Seq<char>)
    ensures
        base64_bytes(data_url(html).skip("data:text/html;base64,"@.len() as int)) == encode_utf8(
            html,
        ),
{
    base64_reads_back(encode_utf8(html));
    assert(data_url(html).skip("data:text/html;base64,"@.len() as int) =~= base64_text(
        encode_utf8(html),
    ));
}

/// The alphabet: the capital letters, the small ones, the digits, a plus sign and
/// a slash, in this order.
pub proof fn the_alphabet_is_the_standard_one(n: nat)
    requires
        n < 64,
    ensures
        n < 26 ==> 'A' <= letter(n) <= 'Z' && letter(n) as int == 'A' as int + n,
        26 <= n < 52 ==> 'a' <= letter(n) <= 'z' && letter(n) as int == 'a' as int + n - 26,
        52 <= n < 62 ==> '0' <= letter(n) <= '9' && letter(n) as int == '0' as int + n - 52,
        n == 62 ==> letter(n) == '+',
        n == 63 ==> letter(n) == '/',
{
}

/// The address of a page says that it is markup, written in base64.
pub proof fn data_urls_say_what_they_hold(html: Seq<char>)
    ensures
        "data:text/html;base64,"@.is_prefix_of(data_url(html)),
        data_url(html).len() == "data:text/html;base64,"@.len() + base64_length(
            encode_utf8(html).len(),
        ),
        fits_in_url(html) <==> (encode_utf8(html).len() + 2) / 3 * 4 <= isize::MAX,
{
    base64_reads_back(encode_utf8(html));
    let head = "data:text/html;base64,"@;
    assert(data_url(html).subrange(0, head.len() as int) =~= head);
}

/// Every three bytes make four characters: their 24 bits in groups of six. Two or
/// one that are left over are filled up with zero bits, and equals signs stand for
/// what is missing.
pub proof fn bits_are_taken_in_groups_of_six(a: u8, b: u8, c: u8, rest: Seq<u8>)
    ensures
        ({
            let bits = 65536 * a + 256 * b + c;
            let two = 65536 * a + 256 * b;
            let one = 65536 * a;
            &&& base64_text(seq![a, b, c] + rest) == seq![
                letter((bits / 262144) as nat),
                letter((bits / 4096 % 64) as nat),
                letter((bits / 64 % 64) as nat),
                letter((bits % 64) as nat),
            ] + base64_text(rest)
            &&& base64_text(seq![a, b]) == seq![
                letter((two / 262144) as nat),
                letter((two / 4096 % 64) as nat),
                letter((two / 64 % 64) as nat),
                '=',
            ]
            &&& base64_text(seq![a]) == seq![
                letter((one / 262144) as nat),
                letter((one / 4096 % 64) as nat),
                '=',
                '=',
            ]
            &&& base64_text(Seq::empty()) == Seq::<char>::empty()
        }),
{
    lemma_groups(a as int, b as int, c as int);
    lemma_groups(a as int, b as int, 0);
    lemma_groups(a as int, 0, 0);
    let s = seq![a, b, c] + rest;
    assert(s.skip(3) =~= rest);
    assert(s[0] == a && s[1] == b && s[2] == c);
}

proof fn lemma_groups(a: int, b: int, c: int)
    requires
        0 <= a < 256,
        0 <= b < 256,
        0 <= c < 256,
    ensures
        ({
            let bits = 65536 * a + 256 * b + c;
            &&& bits / 262144 == a / 4
            &&& bits / 4096 % 64 == a % 4 * 16 + b / 16
            &&& bits / 64 % 64 == b % 16 * 4 + c / 64
            &&& bits % 64 == c % 64
        }),
{
    let bits = 65536 * a + 256 * b + c;
    let second = a % 4 * 16 + b / 16;
    let third = b % 16 * 4 + c / 64;
    let low = c % 64;
    assert(bits == 262144 * (a / 4) + 4096 * second + 64 * third + low);
    assert(0 <= second < 64 && 0 <= third < 64 && 0 <= low < 64);
    assert(bits / 64 == 4096 * (a / 4) + 64 * second + third);
    assert(bits / 4096 == 64 * (a / 4) + second);
}

} // verus!
