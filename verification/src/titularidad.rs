//! The kind of ownership that a declarant has of an asset.

use vstd::prelude::*;
use vstd::utf8::*;
use crate::error::Modelo720Error;
use crate::field::{
    lemma_no_newline_add, lemma_repeated, no_newline, string_of_utf8, uppercase, uppercase_of,
};
use crate::text::{
    copy_range, is_blank, lemma_trimmed_between, lemma_trimmed_nothing, padded, push_padded,
    repeated, trim, trimmed, SPACE,
};

verus! {

/// The kind of ownership of an asset.
#[derive(Clone, Debug)]
pub enum Modelo720Titularidad {
    Titular,
    Representate,
    Autorizado,
    Beneficiario,
    Usufructuario,
    Tomador,
    ConPoderDisposicion,
    /// Another kind, described in words.
    Otros(String),
}

/// The content of a [`Modelo720Titularidad`].
pub enum TitularidadView {
    Titular,
    Representate,
    Autorizado,
    Beneficiario,
    Usufructuario,
    Tomador,
    ConPoderDisposicion,
    Otros(Seq<char>),
}

impl View for Modelo720Titularidad {
    type V = TitularidadView;

    open spec fn view(&self) -> TitularidadView {
        match self {
            Modelo720Titularidad::Titular => TitularidadView::Titular,
            Modelo720Titularidad::Representate => TitularidadView::Representate,
            Modelo720Titularidad::Autorizado => TitularidadView::Autorizado,
            Modelo720Titularidad::Beneficiario => TitularidadView::Beneficiario,
            Modelo720Titularidad::Usufructuario => TitularidadView::Usufructuario,
            Modelo720Titularidad::Tomador => TitularidadView::Tomador,
            Modelo720Titularidad::ConPoderDisposicion => TitularidadView::ConPoderDisposicion,
            Modelo720Titularidad::Otros(what) => TitularidadView::Otros(what@),
        }
    }
}

/// The bytes that a kind of ownership is written as, before they are laid
/// out in a field: a digit from `1` to `7`, or `8` and the description in
/// upper case.
pub open spec fn titularidad_text(v: TitularidadView) -> Seq<u8> {
    match v {
        TitularidadView::Titular => seq![49u8],
        TitularidadView::Representate => seq![50u8],
        TitularidadView::Autorizado => seq![51u8],
        TitularidadView::Beneficiario => seq![52u8],
        TitularidadView::Usufructuario => seq![53u8],
        TitularidadView::Tomador => seq![54u8],
        TitularidadView::ConPoderDisposicion => seq![55u8],
        TitularidadView::Otros(what) => seq![56u8] + encode_utf8(uppercase_of(what)),
    }
}

/// A kind of ownership in a field of `width` bytes.
pub open spec fn titularidad_field(v: TitularidadView, width: nat) -> Seq<u8> {
    padded(titularidad_text(v), width, 32, false)
}

/// The kind of ownership read from a field. The first byte after the blanks
/// decides; what follows an `8` is the description, what follows another
/// digit is not looked at, except that it is well-formed UTF-8.
pub open spec fn titularidad_value(field: Seq<u8>) -> Option<TitularidadView> {
    let t = trimmed(field);
    if t.len() == 0 {
        None
    } else if t[0] == 56 {
        let rest = t.subrange(1, t.len() as int);
        if valid_utf8(rest) {
            Some(TitularidadView::Otros(decode_utf8(rest)))
        } else {
            None
        }
    } else if !valid_utf8(t) {
        None
    } else if t[0] == 49 {
        Some(TitularidadView::Titular)
    } else if t[0] == 50 {
        Some(TitularidadView::Representate)
    } else if t[0] == 51 {
        Some(TitularidadView::Autorizado)
    } else if t[0] == 52 {
        Some(TitularidadView::Beneficiario)
    } else if t[0] == 53 {
        Some(TitularidadView::Usufructuario)
    } else if t[0] == 54 {
        Some(TitularidadView::Tomador)
    } else if t[0] == 55 {
        Some(TitularidadView::ConPoderDisposicion)
    } else {
        None
    }
}

/// A kind of ownership as it is read back: a description is in upper case.
pub open spec fn titularidad_normal(v: TitularidadView) -> TitularidadView {
    match v {
        TitularidadView::Otros(what) => TitularidadView::Otros(uppercase_of(what)),
        _ => v,
    }
}

/// Whether a kind of ownership is read back from a field of `width` bytes
/// as [`titularidad_normal`] says: a description in upper case fits the
/// field behind the digit, does not end with a blank, and holds no newline.
pub open spec fn titularidad_canonical(v: TitularidadView, width: nat) -> bool {
    &&& width >= 1
    &&& v matches TitularidadView::Otros(what) ==> {
        let b = encode_utf8(uppercase_of(what));
        &&& 1 + b.len() <= width
        &&& b.len() > 0 ==> !is_blank(b.last())
        &&& no_newline(b)
    }
}

/// A kind of ownership that is written and read back is the kind that was
/// written, with a description in upper case.
pub proof fn lemma_titularidad_round_trip(v: TitularidadView, width: nat)
    requires
        titularidad_canonical(v, width),
    ensures
        titularidad_field(v, width).len() == width,
        no_newline(titularidad_field(v, width)),
        titularidad_value(titularidad_field(v, width)) == Some(titularidad_normal(v)),
{
    let text = titularidad_text(v);
    let f = titularidad_field(v, width);
    let fill = repeated(32, (width - text.len()) as nat);
    lemma_repeated(32, (width - text.len()) as nat);
    assert(no_newline(text)) by {
        match v {
            TitularidadView::Otros(what) => {
                lemma_no_newline_add(seq![56u8], encode_utf8(uppercase_of(what)));
            },
            _ => {},
        }
    }
    assert(!is_blank(text[0]));
    assert(!is_blank(text.last())) by {
        match v {
            TitularidadView::Otros(what) => {
                let b = encode_utf8(uppercase_of(what));
                if b.len() > 0 {
                    assert(text.last() == b.last());
                }
            },
            _ => {},
        }
    }
    if text.len() >= width {
        assert(text.subrange(0, width as int) =~= text);
        lemma_trimmed_nothing(text);
    } else {
        assert(f =~= Seq::<u8>::empty() + text + fill);
        lemma_trimmed_between(Seq::<u8>::empty(), text, fill);
        lemma_no_newline_add(text, fill);
    }
    assert(trimmed(f) == text);
    match v {
        TitularidadView::Otros(what) => {
            let b = encode_utf8(uppercase_of(what));
            assert(text.subrange(1, text.len() as int) =~= b);
            encode_utf8_valid_utf8(uppercase_of(what));
            encode_utf8_decode_utf8(uppercase_of(what));
        },
        _ => {
            let c = text[0] as char;
            let chars = seq![c];
            assert(is_ascii_chars(chars));
            is_ascii_chars_encode_utf8(chars);
            assert(encode_utf8(chars) =~= text);
            encode_utf8_valid_utf8(chars);
        },
    }
}

impl Modelo720Titularidad {
    /// The bytes of a field of `width` bytes that stand for the kind.
    pub fn encode(&self, width: usize) -> (r: Vec<u8>)
        ensures
            r@ == titularidad_field(self@, width as nat),
            r@.len() == width,
    {
        let mut text: Vec<u8> = Vec::new();
        match self {
            Modelo720Titularidad::Titular => text.push(49u8),
            Modelo720Titularidad::Representate => text.push(50u8),
            Modelo720Titularidad::Autorizado => text.push(51u8),
            Modelo720Titularidad::Beneficiario => text.push(52u8),
            Modelo720Titularidad::Usufructuario => text.push(53u8),
            Modelo720Titularidad::Tomador => text.push(54u8),
            Modelo720Titularidad::ConPoderDisposicion => text.push(55u8),
            Modelo720Titularidad::Otros(what) => {
                text.push(56u8);
                let upper: String = uppercase(what.as_str());
                let bytes: &[u8] = upper.as_str().as_bytes();
                let mut i: usize = 0;
                while i < bytes.len()
                    invariant
                        i <= bytes@.len(),
                        text@ == seq![56u8] + bytes@.subrange(0, i as int),
                    decreases bytes@.len() - i,
                {
                    text.push(bytes[i]);
                    i = i + 1;
                    assert(text@ =~= seq![56u8] + bytes@.subrange(0, i as int));
                }
                assert(bytes@.subrange(0, bytes@.len() as int) =~= bytes@);
            },
        }
        assert(text@ =~= titularidad_text(self@));
        let mut out: Vec<u8> = Vec::new();
        push_padded(&mut out, text.as_slice(), width, SPACE, false);
        assert(out@ =~= titularidad_field(self@, width as nat));
        out
    }

    /// The kind of ownership that a field holds.
    pub fn decode(field: &[u8]) -> (r: Result<Modelo720Titularidad, Modelo720Error>)
        ensures
            r is Ok <==> titularidad_value(field@) is Some,
            r matches Ok(t) ==> Some(t@) == titularidad_value(field@),
            r matches Err(e) ==> e == Modelo720Error::MalformedField,
    {
        let t: Vec<u8> = trim(field);
        if t.len() == 0 {
            return Err(Modelo720Error::MalformedField);
        }
        let code: u8 = t[0];
        if code == 56 {
            let rest: Vec<u8> = copy_range(t.as_slice(), 1, t.len());
            return match string_of_utf8(rest) {
                Some(what) => Ok(Modelo720Titularidad::Otros(what)),
                None => Err(Modelo720Error::MalformedField),
            };
        }
        if string_of_utf8(t).is_none() {
            return Err(Modelo720Error::MalformedField);
        }
        if code == 49 {
            Ok(Modelo720Titularidad::Titular)
        } else if code == 50 {
            Ok(Modelo720Titularidad::Representate)
        } else if code == 51 {
            Ok(Modelo720Titularidad::Autorizado)
        } else if code == 52 {
            Ok(Modelo720Titularidad::Beneficiario)
        } else if code == 53 {
            Ok(Modelo720Titularidad::Usufructuario)
        } else if code == 54 {
            Ok(Modelo720Titularidad::Tomador)
        } else if code == 55 {
            Ok(Modelo720Titularidad::ConPoderDisposicion)
        } else {
            Err(Modelo720Error::MalformedField)
        }
    }
}

} // verus!
