//! Assets with a valuation: what every asset offers, and the kinds of asset
//! that the library knows.

use vstd::prelude::*;
use vstd::string::{StrSliceExecFns, StringExecFns};
use crate::decimal::{cents_of, decimal_difference, decimal_quotient, Decimal, DecimalView};
use crate::error::Modelo720Error;
use crate::field::{uppercase, uppercase_of};
use crate::number::{Shares, MAX_HUNDREDTHS, MIN_HUNDREDTHS};
use crate::registro2::{registro2_baseline, Registro2Modelo720, Registro2View};

verus! {

/// The category of an asset in the declaration, and its subcategory.
#[derive(Clone, Copy, Debug)]
pub struct Modelo720Code {
    pub code: char,
    pub subcode: i8,
}

/// The content of an asset.
pub struct AssetView {
    pub isin: Seq<char>,
    pub valuation: DecimalView,
    pub shares: DecimalView,
    pub country_of_deposit: Seq<char>,
    pub description: Seq<char>,
    pub code: Modelo720Code,
}

/// By how much one asset exceeds another.
pub struct AssetDifference {
    pub valuation: Decimal,
    pub shares: Shares,
}

/// The content of an [`AssetDifference`].
pub struct DifferenceView {
    pub valuation: DecimalView,
    pub shares: DecimalView,
}

impl View for AssetDifference {
    type V = DifferenceView;

    open spec fn view(&self) -> DifferenceView {
        DifferenceView { valuation: self.valuation@, shares: self.shares@ }
    }
}

/// The content of a decimal or the error in its place.
pub open spec fn decimal_result(r: Result<Decimal, Modelo720Error>) -> Result<
    DecimalView,
    Modelo720Error,
> {
    match r {
        Ok(d) => Ok(d@),
        Err(e) => Err(e),
    }
}

/// A whole number or the error in its place.
pub open spec fn int_result(r: Result<i64, Modelo720Error>) -> Result<int, Modelo720Error> {
    match r {
        Ok(n) => Ok(n as int),
        Err(e) => Err(e),
    }
}

/// The price of one share of an asset: its valuation divided by its shares.
/// An asset without shares has none.
pub open spec fn price_per_share(a: AssetView) -> Result<DecimalView, Modelo720Error> {
    if a.shares.mantissa == 0 {
        Err(Modelo720Error::DivisionByZero)
    } else {
        match decimal_quotient(a.valuation, a.shares) {
            Some(q) => Ok(q),
            None => Err(Modelo720Error::Overflow),
        }
    }
}

/// A decimal in hundredths, rounded half away from zero, where an `i64`
/// holds them.
pub open spec fn as_cents(v: DecimalView) -> Result<int, Modelo720Error> {
    if MIN_HUNDREDTHS <= cents_of(v) <= MAX_HUNDREDTHS {
        Ok(cents_of(v))
    } else {
        Err(Modelo720Error::Overflow)
    }
}

/// The first two characters of an identifier, or all of a shorter one.
pub open spec fn country_prefix(isin: Seq<char>) -> Seq<char> {
    if isin.len() < 2 {
        isin
    } else {
        isin.subrange(0, 2)
    }
}

/// The detail record that every use of an asset starts from: the record of
/// the declarant for the country of deposit, with the asset identified by
/// its ISIN, its category, its description in upper case, the country of the
/// issuer taken from the identifier, and the origin `M`.
pub open spec fn asset_record(
    a: AssetView,
    ejercicio: int,
    nif: Seq<char>,
    name: Seq<char>,
) -> Registro2View {
    Registro2View {
        clave_representacion_valores: Some('A'),
        clave_identificacion: Some(1),
        identificacion_valores: Some(a.isin),
        clave_tipo_bien: Some(a.code.code),
        subclave_tipo_bien: Some(a.code.subcode as int),
        identificacion_entidad: Some(uppercase_of(a.description)),
        codigo_pais_entidad: Some(country_prefix(a.isin)),
        origen_bien_derecho: Some('M'),
        ..registro2_baseline(ejercicio, nif, name, a.country_of_deposit)
    }
}

/// By how much `left` exceeds `right`, in valuation and in shares.
pub open spec fn difference(left: AssetView, right: AssetView) -> Result<
    DifferenceView,
    Modelo720Error,
> {
    match decimal_difference(left.valuation, right.valuation) {
        Some(v) => match decimal_difference(left.shares, right.shares) {
            Some(s) => Ok(DifferenceView { valuation: v, shares: s }),
            None => Err(Modelo720Error::Overflow),
        },
        None => Err(Modelo720Error::Overflow),
    }
}

/// The first two characters of `isin`, or all of a shorter one.
pub fn country_prefix_of(isin: &str) -> (r: String)
    ensures
        r@ == country_prefix(isin@),
{
    let n: usize = isin.unicode_len();
    if n < 2 {
        isin.to_owned()
    } else {
        isin.substring_char(0, 2).to_owned()
    }
}

/// A decimal in hundredths, where an `i64` holds them.
pub fn decimal_as_cents(d: &Decimal) -> (r: Result<i64, Modelo720Error>)
    ensures
        int_result(r) == as_cents(d@),
{
    let c: i128 = d.cents();
    if c < MIN_HUNDREDTHS || c > MAX_HUNDREDTHS {
        Err(Modelo720Error::Overflow)
    } else {
        Ok(c as i64)
    }
}

/// An asset that has an identifier, a valuation and a number of shares.
pub trait AssetWithValuation {
    /// The content of the asset.
    spec fn asset(&self) -> AssetView;

    fn isin(&self) -> (r: &str)
        ensures
            r@ == self.asset().isin,
    ;

    fn valuation(&self) -> (r: Decimal)
        ensures
            r@ == self.asset().valuation,
    ;

    fn shares(&self) -> (r: Shares)
        ensures
            r@ == self.asset().shares,
    ;

    fn country_of_deposit(&self) -> (r: &str)
        ensures
            r@ == self.asset().country_of_deposit,
    ;

    fn description(&self) -> (r: &str)
        ensures
            r@ == self.asset().description,
    ;

    fn modelo_720_code(&self) -> (r: Modelo720Code)
        ensures
            r == self.asset().code,
    ;

    /// The price of one share.
    fn price_per_share(&self) -> (r: Result<Decimal, Modelo720Error>)
        ensures
            decimal_result(r) == price_per_share(self.asset()),
    {
        let shares: Decimal = self.shares().0;
        if shares.is_zero() {
            return Err(Modelo720Error::DivisionByZero);
        }
        match self.valuation().checked_div(shares) {
            Some(q) => Ok(q),
            None => Err(Modelo720Error::Overflow),
        }
    }

    /// The number of shares in hundredths.
    fn shares_as_cents(&self) -> (r: Result<i64, Modelo720Error>)
        ensures
            int_result(r) == as_cents(self.asset().shares),
    {
        let shares: Decimal = self.shares().0;
        decimal_as_cents(&shares)
    }

    /// The valuation in cents.
    fn valuation_as_cents(&self) -> (r: Result<i64, Modelo720Error>)
        ensures
            int_result(r) == as_cents(self.asset().valuation),
    {
        let valuation: Decimal = self.valuation();
        decimal_as_cents(&valuation)
    }

    /// The detail record that every use of the asset starts from.
    fn modelo_720_registro(&self, ejercicio: i16, nif: &str, name: &str) -> (r: Registro2Modelo720)
        ensures
            r@ == asset_record(self.asset(), ejercicio as int, nif@, name@),
    {
        let mut registro: Registro2Modelo720 = Registro2Modelo720::new(
            ejercicio,
            nif.to_owned(),
            name.to_owned(),
            self.country_of_deposit().to_owned(),
        );
        let code: Modelo720Code = self.modelo_720_code();
        registro.clave_representacion_valores = Some('A');
        registro.clave_identificacion = Some(1);
        registro.identificacion_valores = Some(self.isin().to_owned());
        registro.clave_tipo_bien = Some(code.code);
        registro.subclave_tipo_bien = Some(code.subcode);
        registro.identificacion_entidad = Some(uppercase(self.description()));
        registro.codigo_pais_entidad = Some(country_prefix_of(self.isin()));
        registro.origen_bien_derecho = Some('M');
        registro
    }
}

/// By how much `left` exceeds `right`, in valuation and in shares.
pub fn asset_difference<L: AssetWithValuation, R: AssetWithValuation>(left: &L, right: &R) -> (r:
    Result<AssetDifference, Modelo720Error>)
    ensures
        r is Ok <==> difference(left.asset(), right.asset()) is Ok,
        r matches Ok(d) ==> Ok::<DifferenceView, Modelo720Error>(d@) == difference(
            left.asset(),
            right.asset(),
        ),
        r matches Err(e) ==> e == Modelo720Error::Overflow,
{
    let valuation: Decimal = match left.valuation().checked_sub(right.valuation()) {
        Some(v) => v,
        None => {
            return Err(Modelo720Error::Overflow);
        },
    };
    let shares: Decimal = match left.shares().0.checked_sub(right.shares().0) {
        Some(s) => s,
        None => {
            return Err(Modelo720Error::Overflow);
        },
    };
    Ok(AssetDifference { valuation, shares: Shares(shares) })
}

/// A holding traded on an exchange, with its number of shares.
pub struct Etf {
    pub isin: String,
    pub euro_valuation: Decimal,
    pub shares: Decimal,
    pub deposit_country: String,
    pub description: String,
}

impl AssetWithValuation for Etf {
    open spec fn asset(&self) -> AssetView {
        AssetView {
            isin: self.isin@,
            valuation: self.euro_valuation@,
            shares: self.shares@,
            country_of_deposit: self.deposit_country@,
            description: self.description@,
            code: Modelo720Code { code: 'I', subcode: 0 },
        }
    }

    fn isin(&self) -> (r: &str) {
        self.isin.as_str()
    }

    fn valuation(&self) -> (r: Decimal) {
        self.euro_valuation
    }

    fn shares(&self) -> (r: Shares) {
        Shares(self.shares)
    }

    fn country_of_deposit(&self) -> (r: &str) {
        self.deposit_country.as_str()
    }

    fn description(&self) -> (r: &str) {
        self.description.as_str()
    }

    fn modelo_720_code(&self) -> (r: Modelo720Code) {
        Modelo720Code { code: 'I', subcode: 0 }
    }
}

/// A lending note. It has as many shares as its valuation says.
pub struct MintosNote {
    pub isin: String,
    pub euro_valuation: Decimal,
    pub deposit_country: String,
    pub description: String,
}

/// The content of the note that [`MintosNote::new`] makes.
pub open spec fn mintos_note(isin: Seq<char>, principal: DecimalView) -> AssetView {
    AssetView {
        isin,
        valuation: principal,
        shares: principal,
        country_of_deposit: "LV"@,
        description: "MINTOS NOTE "@ + isin,
        code: Modelo720Code { code: 'V', subcode: 2 },
    }
}

impl MintosNote {
    /// The note `isin` with an outstanding principal, held in Latvia.
    pub fn new(isin: String, principal: Decimal) -> (r: MintosNote)
        ensures
            r.asset() == mintos_note(isin@, principal@),
    {
        let mut description: String = "MINTOS NOTE ".to_owned();
        description.append(isin.as_str());
        MintosNote {
            isin,
            euro_valuation: principal,
            deposit_country: "LV".to_owned(),
            description,
        }
    }
}

impl AssetWithValuation for MintosNote {
    open spec fn asset(&self) -> AssetView {
        AssetView {
            isin: self.isin@,
            valuation: self.euro_valuation@,
            shares: self.euro_valuation@,
            country_of_deposit: self.deposit_country@,
            description: self.description@,
            code: Modelo720Code { code: 'V', subcode: 2 },
        }
    }

    fn isin(&self) -> (r: &str) {
        self.isin.as_str()
    }

    fn valuation(&self) -> (r: Decimal) {
        self.euro_valuation
    }

    fn shares(&self) -> (r: Shares) {
        Shares(self.euro_valuation)
    }

    fn country_of_deposit(&self) -> (r: &str) {
        self.deposit_country.as_str()
    }

    fn description(&self) -> (r: &str) {
        self.description.as_str()
    }

    fn modelo_720_code(&self) -> (r: Modelo720Code) {
        Modelo720Code { code: 'V', subcode: 2 }
    }
}

/// An asset of one of the kinds that the library knows.
pub enum Asset {
    Etf(Etf),
    MintosNote(MintosNote),
}

impl AssetWithValuation for Asset {
    open spec fn asset(&self) -> AssetView {
        match self {
            Asset::Etf(a) => a.asset(),
            Asset::MintosNote(a) => a.asset(),
        }
    }

    fn isin(&self) -> (r: &str) {
        match self {
            Asset::Etf(a) => a.isin(),
            Asset::MintosNote(a) => a.isin(),
        }
    }

    fn valuation(&self) -> (r: Decimal) {
        match self {
            Asset::Etf(a) => a.valuation(),
            Asset::MintosNote(a) => a.valuation(),
        }
    }

    fn shares(&self) -> (r: Shares) {
        match self {
            Asset::Etf(a) => a.shares(),
            Asset::MintosNote(a) => a.shares(),
        }
    }

    fn country_of_deposit(&self) -> (r: &str) {
        match self {
            Asset::Etf(a) => a.country_of_deposit(),
            Asset::MintosNote(a) => a.country_of_deposit(),
        }
    }

    fn description(&self) -> (r: &str) {
        match self {
            Asset::Etf(a) => a.description(),
            Asset::MintosNote(a) => a.description(),
        }
    }

    fn modelo_720_code(&self) -> (r: Modelo720Code) {
        match self {
            Asset::Etf(a) => a.modelo_720_code(),
            Asset::MintosNote(a) => a.modelo_720_code(),
        }
    }
}

} // verus!
