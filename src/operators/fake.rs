use vstd::prelude::*;
use fake::Fake;
use rand::Rng;
use vstd::string::StringExecFns;
use crate::error::{DataFakeError, ErrorKind};
use crate::value::{Json, Value, chars_of, chars_eq, int_to_string};

verus! {

/// The generation operator: draws a value of a named kind.
pub struct FakeOperator;

/// The kinds of value that the generation operator draws.
#[derive(Debug, Clone, Copy, PartialEq, Eq, Structural)]
pub enum FakeMethod {
    U8,
    U16,
    U32,
    U64,
    I8,
    I16,
    I32,
    I64,
    F32,
    F64,
    Bool,
    Uuid,
    StreetAddress,
    CityName,
    CountryName,
    CountryCode,
    StateName,
    StateAbbr,
    ZipCode,
    PostCode,
    Latitude,
    Longitude,
    StreetName,
    StreetSuffix,
    Name,
    FirstName,
    LastName,
    NameWithTitle,
    Title,
    Suffix,
    CompanyName,
    CompanySuffix,
    Industry,
    Profession,
    CatchPhrase,
    Bs,
    BsAdj,
    BsNoun,
    BsVerb,
    SafeEmail,
    FreeEmail,
    Username,
    Password,
    DomainSuffix,
    IPv4,
    IPv6,
    MacAddress,
    UserAgent,
    PhoneNumber,
    CellNumber,
    Bic,
    CreditCardNumber,
    CurrencyCode,
    CurrencyName,
    CurrencySymbol,
    Word,
    Words,
    Sentence,
    Paragraph,
    Isbn10,
    Isbn13,
    FileName,
    FileExtension,
    DirPath,
    FilePath,
}

/// The kind that a method name names, if any.
pub open spec fn method_of(name: Seq<char>) -> Option<FakeMethod> {
    if name == "u8"@ { Some(FakeMethod::U8) }
    else if name == "u16"@ { Some(FakeMethod::U16) }
    else if name == "u32"@ { Some(FakeMethod::U32) }
    else if name == "u64"@ { Some(FakeMethod::U64) }
    else if name == "i8"@ { Some(FakeMethod::I8) }
    else if name == "i16"@ { Some(FakeMethod::I16) }
    else if name == "i32"@ { Some(FakeMethod::I32) }
    else if name == "i64"@ { Some(FakeMethod::I64) }
    else if name == "f32"@ { Some(FakeMethod::F32) }
    else if name == "f64"@ { Some(FakeMethod::F64) }
    else if name == "bool"@ || name == "boolean"@ { Some(FakeMethod::Bool) }
    else if name == "uuid"@ { Some(FakeMethod::Uuid) }
    else if name == "street_address"@ { Some(FakeMethod::StreetAddress) }
    else if name == "city"@ || name == "city_name"@ { Some(FakeMethod::CityName) }
    else if name == "country_name"@ { Some(FakeMethod::CountryName) }
    else if name == "country_code"@ { Some(FakeMethod::CountryCode) }
    else if name == "state_name"@ { Some(FakeMethod::StateName) }
    else if name == "state_abbr"@ { Some(FakeMethod::StateAbbr) }
    else if name == "zip_code"@ || name == "zip"@ { Some(FakeMethod::ZipCode) }
    else if name == "post_code"@ { Some(FakeMethod::PostCode) }
    else if name == "latitude"@ { Some(FakeMethod::Latitude) }
    else if name == "longitude"@ { Some(FakeMethod::Longitude) }
    else if name == "street_name"@ { Some(FakeMethod::StreetName) }
    else if name == "street_suffix"@ { Some(FakeMethod::StreetSuffix) }
    else if name == "name"@ { Some(FakeMethod::Name) }
    else if name == "first_name"@ { Some(FakeMethod::FirstName) }
    else if name == "last_name"@ { Some(FakeMethod::LastName) }
    else if name == "name_with_title"@ { Some(FakeMethod::NameWithTitle) }
    else if name == "title"@ { Some(FakeMethod::Title) }
    else if name == "suffix"@ { Some(FakeMethod::Suffix) }
    else if name == "company_name"@ { Some(FakeMethod::CompanyName) }
    else if name == "company_suffix"@ { Some(FakeMethod::CompanySuffix) }
    else if name == "industry"@ { Some(FakeMethod::Industry) }
    else if name == "profession"@ { Some(FakeMethod::Profession) }
    else if name == "catch_phrase"@ { Some(FakeMethod::CatchPhrase) }
    else if name == "bs"@ { Some(FakeMethod::Bs) }
    else if name == "bs_adj"@ { Some(FakeMethod::BsAdj) }
    else if name == "bs_noun"@ { Some(FakeMethod::BsNoun) }
    else if name == "bs_verb"@ { Some(FakeMethod::BsVerb) }
    else if name == "email"@ || name == "safe_email"@ { Some(FakeMethod::SafeEmail) }
    else if name == "free_email"@ { Some(FakeMethod::FreeEmail) }
    else if name == "username"@ { Some(FakeMethod::Username) }
    else if name == "password"@ { Some(FakeMethod::Password) }
    else if name == "domain_suffix"@ { Some(FakeMethod::DomainSuffix) }
    else if name == "ipv4"@ { Some(FakeMethod::IPv4) }
    else if name == "ipv6"@ { Some(FakeMethod::IPv6) }
    else if name == "mac_address"@ { Some(FakeMethod::MacAddress) }
    else if name == "user_agent"@ { Some(FakeMethod::UserAgent) }
    else if name == "phone_number"@ { Some(FakeMethod::PhoneNumber) }
    else if name == "cell_number"@ { Some(FakeMethod::CellNumber) }
    else if name == "bic"@ { Some(FakeMethod::Bic) }
    else if name == "credit_card_number"@ { Some(FakeMethod::CreditCardNumber) }
    else if name == "currency_code"@ { Some(FakeMethod::CurrencyCode) }
    else if name == "currency_name"@ { Some(FakeMethod::CurrencyName) }
    else if name == "currency_symbol"@ { Some(FakeMethod::CurrencySymbol) }
    else if name == "word"@ { Some(FakeMethod::Word) }
    else if name == "words"@ { Some(FakeMethod::Words) }
    else if name == "sentence"@ { Some(FakeMethod::Sentence) }
    else if name == "paragraph"@ { Some(FakeMethod::Paragraph) }
    else if name == "isbn10"@ { Some(FakeMethod::Isbn10) }
    else if name == "isbn13"@ { Some(FakeMethod::Isbn13) }
    else if name == "file_name"@ { Some(FakeMethod::FileName) }
    else if name == "file_extension"@ { Some(FakeMethod::FileExtension) }
    else if name == "dir_path"@ { Some(FakeMethod::DirPath) }
    else if name == "file_path"@ { Some(FakeMethod::FilePath) }
    else { None }
}

/// The kind that a method name names, if any.
pub fn method_from_name(name: &str) -> (r: Option<FakeMethod>)
    ensures
        r == method_of(name@),
{
    let c = chars_of(name);
    if chars_eq(&c, &chars_of("u8")) {
        return Some(FakeMethod::U8);
    }
    if chars_eq(&c, &chars_of("u16")) {
        return Some(FakeMethod::U16);
    }
    if chars_eq(&c, &chars_of("u32")) {
        return Some(FakeMethod::U32);
    }
    if chars_eq(&c, &chars_of("u64")) {
        return Some(FakeMethod::U64);
    }
    if chars_eq(&c, &chars_of("i8")) {
        return Some(FakeMethod::I8);
    }
    if chars_eq(&c, &chars_of("i16")) {
        return Some(FakeMethod::I16);
    }
    if chars_eq(&c, &chars_of("i32")) {
        return Some(FakeMethod::I32);
    }
    if chars_eq(&c, &chars_of("i64")) {
        return Some(FakeMethod::I64);
    }
    if chars_eq(&c, &chars_of("f32")) {
        return Some(FakeMethod::F32);
    }
    if chars_eq(&c, &chars_of("f64")) {
        return Some(FakeMethod::F64);
    }
    if chars_eq(&c, &chars_of("bool")) {
        return Some(FakeMethod::Bool);
    }
    if chars_eq(&c, &chars_of("boolean")) {
        return Some(FakeMethod::Bool);
    }
    if chars_eq(&c, &chars_of("uuid")) {
        return Some(FakeMethod::Uuid);
    }
    if chars_eq(&c, &chars_of("street_address")) {
        return Some(FakeMethod::StreetAddress);
    }
    if chars_eq(&c, &chars_of("city")) {
        return Some(FakeMethod::CityName);
    }
    if chars_eq(&c, &chars_of("city_name")) {
        return Some(FakeMethod::CityName);
    }
    if chars_eq(&c, &chars_of("country_name")) {
        return Some(FakeMethod::CountryName);
    }
    if chars_eq(&c, &chars_of("country_code")) {
        return Some(FakeMethod::CountryCode);
    }
    if chars_eq(&c, &chars_of("state_name")) {
        return Some(FakeMethod::StateName);
    }
    if chars_eq(&c, &chars_of("state_abbr")) {
        return Some(FakeMethod::StateAbbr);
    }
    if chars_eq(&c, &chars_of("zip_code")) {
        return Some(FakeMethod::ZipCode);
    }
    if chars_eq(&c, &chars_of("zip")) {
        return Some(FakeMethod::ZipCode);
    }
    if chars_eq(&c, &chars_of("post_code")) {
        return Some(FakeMethod::PostCode);
    }
    if chars_eq(&c, &chars_of("latitude")) {
        return Some(FakeMethod::Latitude);
    }
    if chars_eq(&c, &chars_of("longitude")) {
        return Some(FakeMethod::Longitude);
    }
    if chars_eq(&c, &chars_of("street_name")) {
        return Some(FakeMethod::StreetName);
    }
    if chars_eq(&c, &chars_of("street_suffix")) {
        return Some(FakeMethod::StreetSuffix);
    }
    if chars_eq(&c, &chars_of("name")) {
        return Some(FakeMethod::Name);
    }
    if chars_eq(&c, &chars_of("first_name")) {
        return Some(FakeMethod::FirstName);
    }
    if chars_eq(&c, &chars_of("last_name")) {
        return Some(FakeMethod::LastName);
    }
    if chars_eq(&c, &chars_of("name_with_title")) {
        return Some(FakeMethod::NameWithTitle);
    }
    if chars_eq(&c, &chars_of("title")) {
        return Some(FakeMethod::Title);
    }
    if chars_eq(&c, &chars_of("suffix")) {
        return Some(FakeMethod::Suffix);
    }
    if chars_eq(&c, &chars_of("company_name")) {
        return Some(FakeMethod::CompanyName);
    }
    if chars_eq(&c, &chars_of("company_suffix")) {
        return Some(FakeMethod::CompanySuffix);
    }
    if chars_eq(&c, &chars_of("industry")) {
        return Some(FakeMethod::Industry);
    }
    if chars_eq(&c, &chars_of("profession")) {
        return Some(FakeMethod::Profession);
    }
    if chars_eq(&c, &chars_of("catch_phrase")) {
        return Some(FakeMethod::CatchPhrase);
    }
    if chars_eq(&c, &chars_of("bs")) {
        return Some(FakeMethod::Bs);
    }
    if chars_eq(&c, &chars_of("bs_adj")) {
        return Some(FakeMethod::BsAdj);
    }
    if chars_eq(&c, &chars_of("bs_noun")) {
        return Some(FakeMethod::BsNoun);
    }
    if chars_eq(&c, &chars_of("bs_verb")) {
        return Some(FakeMethod::BsVerb);
    }
    if chars_eq(&c, &chars_of("email")) {
        return Some(FakeMethod::SafeEmail);
    }
    if chars_eq(&c, &chars_of("safe_email")) {
        return Some(FakeMethod::SafeEmail);
    }
    if chars_eq(&c, &chars_of("free_email")) {
        return Some(FakeMethod::FreeEmail);
    }
    if chars_eq(&c, &chars_of("username")) {
        return Some(FakeMethod::Username);
    }
    if chars_eq(&c, &chars_of("password")) {
        return Some(FakeMethod::Password);
    }
    if chars_eq(&c, &chars_of("domain_suffix")) {
        return Some(FakeMethod::DomainSuffix);
    }
    if chars_eq(&c, &chars_of("ipv4")) {
        return Some(FakeMethod::IPv4);
    }
    if chars_eq(&c, &chars_of("ipv6")) {
        return Some(FakeMethod::IPv6);
    }
    if chars_eq(&c, &chars_of("mac_address")) {
        return Some(FakeMethod::MacAddress);
    }
    if chars_eq(&c, &chars_of("user_agent")) {
        return Some(FakeMethod::UserAgent);
    }
    if chars_eq(&c, &chars_of("phone_number")) {
        return Some(FakeMethod::PhoneNumber);
    }
    if chars_eq(&c, &chars_of("cell_number")) {
        return Some(FakeMethod::CellNumber);
    }
    if chars_eq(&c, &chars_of("bic")) {
        return Some(FakeMethod::Bic);
    }
    if chars_eq(&c, &chars_of("credit_card_number")) {
        return Some(FakeMethod::CreditCardNumber);
    }
    if chars_eq(&c, &chars_of("currency_code")) {
        return Some(FakeMethod::CurrencyCode);
    }
    if chars_eq(&c, &chars_of("currency_name")) {
        return Some(FakeMethod::CurrencyName);
    }
    if chars_eq(&c, &chars_of("currency_symbol")) {
        return Some(FakeMethod::CurrencySymbol);
    }
    if chars_eq(&c, &chars_of("word")) {
        return Some(FakeMethod::Word);
    }
    if chars_eq(&c, &chars_of("words")) {
        return Some(FakeMethod::Words);
    }
    if chars_eq(&c, &chars_of("sentence")) {
        return Some(FakeMethod::Sentence);
    }
    if chars_eq(&c, &chars_of("paragraph")) {
        return Some(FakeMethod::Paragraph);
    }
    if chars_eq(&c, &chars_of("isbn10")) {
        return Some(FakeMethod::Isbn10);
    }
    if chars_eq(&c, &chars_of("isbn13")) {
        return Some(FakeMethod::Isbn13);
    }
    if chars_eq(&c, &chars_of("file_name")) {
        return Some(FakeMethod::FileName);
    }
    if chars_eq(&c, &chars_of("file_extension")) {
        return Some(FakeMethod::FileExtension);
    }
    if chars_eq(&c, &chars_of("dir_path")) {
        return Some(FakeMethod::DirPath);
    }
    if chars_eq(&c, &chars_of("file_path")) {
        return Some(FakeMethod::FilePath);
    }
    None
}

/// The inclusive domain of an integral kind.
pub open spec fn int_domain(m: FakeMethod) -> Option<(int, int)> {
    match m {
        FakeMethod::U8 => Some((0int, 255int)),
        FakeMethod::U16 => Some((0int, 65535int)),
        FakeMethod::U32 => Some((0int, 4294967295int)),
        FakeMethod::U64 => Some((0int, 18446744073709551615int)),
        FakeMethod::I8 => Some((-128int, 127int)),
        FakeMethod::I16 => Some((-32768int, 32767int)),
        FakeMethod::I32 => Some((-2147483648int, 2147483647int)),
        FakeMethod::I64 => Some((-9223372036854775808int, 9223372036854775807int)),
        _ => None,
    }
}

/// The range that an integral draw is taken from: the whole domain with no
/// bounds, or the inclusive `[min, max]` of the two extra arguments.
pub open spec fn int_range(m: FakeMethod, args: Seq<Json>) -> Option<(int, int)> {
    match int_domain(m) {
        None => None,
        Some((lo, hi)) => if args.len() == 1 {
            Some((lo, hi))
        } else if args.len() == 3 {
            match (args[1], args[2]) {
                (Json::Int(a), Json::Int(b)) => if lo <= a && a <= b && b <= hi {
                    Some((a, b))
                } else {
                    None
                },
                _ => None,
            }
        } else {
            None
        },
    }
}

/// A length argument: its default when absent, `None` when it is not a
/// natural number that fits in `usize`.
pub open spec fn size_arg(args: Seq<Json>, i: int, default: nat) -> Option<nat> {
    if i >= args.len() {
        Some(default)
    } else {
        match args[i] {
            Json::Int(n) => if 0 <= n <= usize::MAX { Some(n as nat) } else { None },
            _ => None,
        }
    }
}

/// The half-open length range `[lo, hi)` of a text kind's two optional
/// arguments, if it is well formed and not empty.
pub open spec fn size_range(args: Seq<Json>, lo: nat, hi: nat) -> Option<(nat, nat)> {
    match (size_arg(args, 1, lo), size_arg(args, 2, hi)) {
        (Some(a), Some(b)) => if a < b { Some((a, b)) } else { None },
        _ => None,
    }
}

/// The default length range of the kinds that take one.
pub open spec fn default_sizes(m: FakeMethod) -> (nat, nat) {
    match m {
        FakeMethod::Password => (8nat, 20nat),
        FakeMethod::Sentence => (4nat, 10nat),
        _ => (3nat, 7nat),
    }
}

/// The error that a known kind gives for its arguments, if any.
pub open spec fn method_fault(m: FakeMethod, args: Seq<Json>) -> Option<ErrorKind> {
    if int_domain(m) is Some {
        if int_range(m, args) is Some { None } else { Some(ErrorKind::FakeOperator) }
    } else if m is F32 || m is F64 {
        Some(ErrorKind::TypeConversion)
    } else if m is Password || m is Sentence || m is Paragraph {
        if size_range(args, default_sizes(m).0, default_sizes(m).1) is Some {
            None
        } else {
            Some(ErrorKind::FakeOperator)
        }
    } else if m is Words {
        match size_arg(args, 1, 5) {
            Some(n) => if n < usize::MAX { None } else { Some(ErrorKind::FakeOperator) },
            None => Some(ErrorKind::FakeOperator),
        }
    } else {
        None
    }
}

/// The error that the generation operator gives for its arguments, if any:
/// no arguments or a first argument that is not a text, a text that names
/// no kind (`UnknownFakeMethod`), or arguments that the kind cannot take. Floating-point kinds are not drawn by this library.
pub open spec fn fake_fault(args: Seq<Json>) -> Option<ErrorKind> {
    if args.len() == 0 {
        Some(ErrorKind::FakeOperator)
    } else {
        match args[0] {
            Json::Str(s) => match method_of(s) {
                Some(m) => method_fault(m, args),
                None => Some(ErrorKind::UnknownFakeMethod),
            },
            _ => Some(ErrorKind::FakeOperator),
        }
    }
}

/// What a successful draw may be: an integer in its range, a boolean, a
/// 36-character UUID, a password whose length lies in its range, an email
/// address with an `@`, a sentence ending in `.`, a coordinate, or a text.
pub open spec fn fake_admits(args: Seq<Json>, out: Json) -> bool {
    let m = method_of(args[0]->Str_0)->0;
    if int_domain(m) is Some {
        match (out, int_range(m, args)) {
            (Json::Int(v), Some((lo, hi))) => lo <= v <= hi,
            _ => false,
        }
    } else if m is Bool {
        out is Bool
    } else if m is Uuid {
        out is Str && out->Str_0.len() == 36
    } else if m is Password {
        match (out, size_range(args, 8, 20)) {
            (Json::Str(s), Some((lo, hi))) => lo <= s.len() < hi,
            _ => false,
        }
    } else if m is SafeEmail || m is FreeEmail {
        out is Str && out->Str_0.contains('@')
    } else if m is Sentence {
        out is Str && out->Str_0.len() > 0 && out->Str_0.last() == '.'
    } else if m is Latitude || m is Longitude {
        out is Float
    } else {
        out is Str
    }
}

pub open spec fn view_args(args: Seq<Value>) -> Seq<Json> {
    Seq::new(args.len(), |i: int| args[i]@)
}

/// Relies on rand's `Rng::gen_range` over an inclusive range, which panics
/// only on an empty range.
#[verifier::external_body]
fn draw_between(lo: i128, hi: i128) -> (r: i128)
    requires
        lo <= hi,
    ensures
        lo <= r <= hi,
{
    rand::thread_rng().gen_range(lo..=hi)
}

/// Relies on rand's `Rng::gen` for a random boolean.
#[verifier::external_body]
fn draw_bool() -> bool {
    rand::thread_rng().gen()
}

/// Relies on fake's `uuid::UUIDv4` as a `String`: uuid's hyphenated form,
/// 36 characters.
#[verifier::external_body]
fn fake_uuid() -> (r: String)
    ensures
        r@.len() == 36,
{
    fake::uuid::UUIDv4.fake()
}

/// Relies on fake's `internet::en::Password`: as many characters of its
/// password alphabet as a length drawn from `lo..hi`, which must not be empty.
#[verifier::external_body]
fn fake_password(lo: usize, hi: usize) -> (r: String)
    requires
        lo < hi,
    ensures
        lo <= r@.len() < hi,
{
    fake::faker::internet::en::Password(lo..hi).fake()
}

/// Relies on fake's `lorem::en::Words`: with the range `n..n + 1`, exactly
/// `n` words.
#[verifier::external_body]
fn fake_words(n: usize) -> (r: Vec<String>)
    requires
        n < usize::MAX,
    ensures
        r@.len() == n,
{
    fake::faker::lorem::en::Words(n..n + 1).fake()
}

/// Relies on fake's `lorem::en::Sentence`, whose word count is drawn from
/// `lo..hi`, which must not be empty; the words joined by spaces, then `.`.
#[verifier::external_body]
fn fake_sentence(lo: usize, hi: usize) -> (r: String)
    requires
        lo < hi,
    ensures
        r@.len() > 0 && r@.last() == '.',
{
    fake::faker::lorem::en::Sentence(lo..hi).fake()
}

/// Relies on fake's `lorem::en::Paragraph`, whose sentence count is drawn
/// from `lo..hi`, which must not be empty.
#[verifier::external_body]
fn fake_paragraph(lo: usize, hi: usize) -> String
    requires
        lo < hi,
{
    fake::faker::lorem::en::Paragraph(lo..hi).fake()
}

/// Relies on fake's `address::en::Latitude` as a `String`: the decimal text
/// of a random latitude.
#[verifier::external_body]
fn fake_latitude() -> String {
    fake::faker::address::en::Latitude().fake()
}

/// Relies on fake's `address::en::Longitude` as a `String`: the decimal text
/// of a random longitude.
#[verifier::external_body]
fn fake_longitude() -> String {
    fake::faker::address::en::Longitude().fake()
}

/// Relies on fake's `address::en::CityName`: a random text.
#[verifier::external_body]
fn fake_city_name() -> String {
    fake::faker::address::en::CityName().fake()
}

/// Relies on fake's `address::en::CountryName`: a random text.
#[verifier::external_body]
fn fake_country_name() -> String {
    fake::faker::address::en::CountryName().fake()
}

/// Relies on fake's `address::en::CountryCode`: a random text.
#[verifier::external_body]
fn fake_country_code() -> String {
    fake::faker::address::en::CountryCode().fake()
}

/// Relies on fake's `address::en::StateName`: a random text.
#[verifier::external_body]
fn fake_state_name() -> String {
    fake::faker::address::en::StateName().fake()
}

/// Relies on fake's `address::en::StateAbbr`: a random text.
#[verifier::external_body]
fn fake_state_abbr() -> String {
    fake::faker::address::en::StateAbbr().fake()
}

/// Relies on fake's `address::en::ZipCode`: a random text.
#[verifier::external_body]
fn fake_zip_code() -> String {
    fake::faker::address::en::ZipCode().fake()
}

/// Relies on fake's `address::en::PostCode`: a random text.
#[verifier::external_body]
fn fake_post_code() -> String {
    fake::faker::address::en::PostCode().fake()
}

/// Relies on fake's `address::en::StreetName`: a random text.
#[verifier::external_body]
fn fake_street_name() -> String {
    fake::faker::address::en::StreetName().fake()
}

/// Relies on fake's `address::en::StreetSuffix`: a random text.
#[verifier::external_body]
fn fake_street_suffix() -> String {
    fake::faker::address::en::StreetSuffix().fake()
}

/// Relies on fake's `name::en::Name`: a random text.
#[verifier::external_body]
fn fake_name() -> String {
    fake::faker::name::en::Name().fake()
}

/// Relies on fake's `name::en::FirstName`: a random text.
#[verifier::external_body]
fn fake_first_name() -> String {
    fake::faker::name::en::FirstName().fake()
}

/// Relies on fake's `name::en::LastName`: a random text.
#[verifier::external_body]
fn fake_last_name() -> String {
    fake::faker::name::en::LastName().fake()
}

/// Relies on fake's `name::en::NameWithTitle`: a random text.
#[verifier::external_body]
fn fake_name_with_title() -> String {
    fake::faker::name::en::NameWithTitle().fake()
}

/// Relies on fake's `name::en::Title`: a random text.
#[verifier::external_body]
fn fake_title() -> String {
    fake::faker::name::en::Title().fake()
}

/// Relies on fake's `name::en::Suffix`: a random text.
#[verifier::external_body]
fn fake_suffix() -> String {
    fake::faker::name::en::Suffix().fake()
}

/// Relies on fake's `company::en::CompanyName`: a random text.
#[verifier::external_body]
fn fake_company_name() -> String {
    fake::faker::company::en::CompanyName().fake()
}

/// Relies on fake's `company::en::CompanySuffix`: a random text.
#[verifier::external_body]
fn fake_company_suffix() -> String {
    fake::faker::company::en::CompanySuffix().fake()
}

/// Relies on fake's `company::en::Industry`: a random text.
#[verifier::external_body]
fn fake_industry() -> String {
    fake::faker::company::en::Industry().fake()
}

/// Relies on fake's `company::en::Profession`: a random text.
#[verifier::external_body]
fn fake_profession() -> String {
    fake::faker::company::en::Profession().fake()
}

/// Relies on fake's `company::en::CatchPhrase`: a random text.
#[verifier::external_body]
fn fake_catch_phrase() -> String {
    fake::faker::company::en::CatchPhrase().fake()
}

/// Relies on fake's `company::en::Bs`: a random text.
#[verifier::external_body]
fn fake_bs() -> String {
    fake::faker::company::en::Bs().fake()
}

/// Relies on fake's `company::en::BsAdj`: a random text.
#[verifier::external_body]
fn fake_bs_adj() -> String {
    fake::faker::company::en::BsAdj().fake()
}

/// Relies on fake's `company::en::BsNoun`: a random text.
#[verifier::external_body]
fn fake_bs_noun() -> String {
    fake::faker::company::en::BsNoun().fake()
}

/// Relies on fake's `company::en::BsVerb`: a random text.
#[verifier::external_body]
fn fake_bs_verb() -> String {
    fake::faker::company::en::BsVerb().fake()
}

/// Relies on fake's `internet::en::SafeEmail`: a first name, `@example.`
/// and a top-level domain, so it holds an `@`.
#[verifier::external_body]
fn fake_safe_email() -> (r: String)
    ensures
        r@.contains('@'),
{
    fake::faker::internet::en::SafeEmail().fake()
}

/// Relies on fake's `internet::en::FreeEmail`: a user name, `@` and a free
/// mail provider, so it holds an `@`.
#[verifier::external_body]
fn fake_free_email() -> (r: String)
    ensures
        r@.contains('@'),
{
    fake::faker::internet::en::FreeEmail().fake()
}

/// Relies on fake's `internet::en::Username`: a random text.
#[verifier::external_body]
fn fake_username() -> String {
    fake::faker::internet::en::Username().fake()
}

/// Relies on fake's `internet::en::DomainSuffix`: a random text.
#[verifier::external_body]
fn fake_domain_suffix() -> String {
    fake::faker::internet::en::DomainSuffix().fake()
}

/// Relies on fake's `internet::en::IPv4`: a random text.
#[verifier::external_body]
fn fake_ipv4() -> String {
    fake::faker::internet::en::IPv4().fake()
}

/// Relies on fake's `internet::en::IPv6`: a random text.
#[verifier::external_body]
fn fake_ipv6() -> String {
    fake::faker::internet::en::IPv6().fake()
}

/// Relies on fake's `internet::en::MACAddress`: a random text.
#[verifier::external_body]
fn fake_mac_address() -> String {
    fake::faker::internet::en::MACAddress().fake()
}

/// Relies on fake's `internet::en::UserAgent`: a random text.
#[verifier::external_body]
fn fake_user_agent() -> String {
    fake::faker::internet::en::UserAgent().fake()
}

/// Relies on fake's `phone_number::en::PhoneNumber`: a random text.
#[verifier::external_body]
fn fake_phone_number() -> String {
    fake::faker::phone_number::en::PhoneNumber().fake()
}

/// Relies on fake's `phone_number::en::CellNumber`: a random text.
#[verifier::external_body]
fn fake_cell_number() -> String {
    fake::faker::phone_number::en::CellNumber().fake()
}

/// Relies on fake's `finance::en::Bic`: a random text.
#[verifier::external_body]
fn fake_bic() -> String {
    fake::faker::finance::en::Bic().fake()
}

/// Relies on fake's `creditcard::en::CreditCardNumber`: a random text.
#[verifier::external_body]
fn fake_credit_card_number() -> String {
    fake::faker::creditcard::en::CreditCardNumber().fake()
}

/// Relies on fake's `currency::en::CurrencyCode`: a random text.
#[verifier::external_body]
fn fake_currency_code() -> String {
    fake::faker::currency::en::CurrencyCode().fake()
}

/// Relies on fake's `currency::en::CurrencyName`: a random text.
#[verifier::external_body]
fn fake_currency_name() -> String {
    fake::faker::currency::en::CurrencyName().fake()
}

/// Relies on fake's `currency::en::CurrencySymbol`: a random text.
#[verifier::external_body]
fn fake_currency_symbol() -> String {
    fake::faker::currency::en::CurrencySymbol().fake()
}

/// Relies on fake's `lorem::en::Word`: a random text.
#[verifier::external_body]
fn fake_word() -> String {
    fake::faker::lorem::en::Word().fake()
}

/// Relies on fake's `barcode::en::Isbn10`: a random text.
#[verifier::external_body]
fn fake_isbn10() -> String {
    fake::faker::barcode::en::Isbn10().fake()
}

/// Relies on fake's `barcode::en::Isbn13`: a random text.
#[verifier::external_body]
fn fake_isbn13() -> String {
    fake::faker::barcode::en::Isbn13().fake()
}

/// Relies on fake's `filesystem::en::FileName`: a random text.
#[verifier::external_body]
fn fake_file_name() -> String {
    fake::faker::filesystem::en::FileName().fake()
}

/// Relies on fake's `filesystem::en::FileExtension`: a random text.
#[verifier::external_body]
fn fake_file_extension() -> String {
    fake::faker::filesystem::en::FileExtension().fake()
}

/// Relies on fake's `filesystem::en::DirPath`: a random text.
#[verifier::external_body]
fn fake_dir_path() -> String {
    fake::faker::filesystem::en::DirPath().fake()
}

/// Relies on fake's `filesystem::en::FilePath`: a random text.
#[verifier::external_body]
fn fake_file_path() -> String {
    fake::faker::filesystem::en::FilePath().fake()
}

fn fake_error(msg: &str) -> (e: DataFakeError)
    ensures
        e.spec_kind() == ErrorKind::FakeOperator,
{
    DataFakeError::FakeOperatorError(String::from_str(msg))
}

/// The inclusive domain of an integral kind.
fn domain_of(m: FakeMethod) -> (r: Option<(i128, i128)>)
    ensures
        r matches Some((lo, hi)) ==> int_domain(m) == Some((lo as int, hi as int)),
        r is None ==> int_domain(m) is None,
{
    match m {
        FakeMethod::U8 => Some((0, 255)),
        FakeMethod::U16 => Some((0, 65535)),
        FakeMethod::U32 => Some((0, 4294967295)),
        FakeMethod::U64 => Some((0, 18446744073709551615)),
        FakeMethod::I8 => Some((-128, 127)),
        FakeMethod::I16 => Some((-32768, 32767)),
        FakeMethod::I32 => Some((-2147483648, 2147483647)),
        FakeMethod::I64 => Some((-9223372036854775808, 9223372036854775807)),
        _ => None,
    }
}

/// Reads a length argument, or gives its default when it is absent.
fn read_size(args: &[Value], i: usize, default: usize) -> (r: Option<usize>)
    ensures
        r matches Some(n) ==> size_arg(view_args(args@), i as int, default as nat) == Some(n as nat),
        r is None ==> size_arg(view_args(args@), i as int, default as nat) is None,
{
    if i >= args.len() {
        return Some(default);
    }
    assert(view_args(args@)[i as int] == args@[i as int]@);
    match &args[i] {
        Value::Int(n) => {
            if 0 <= *n && *n <= usize::MAX as i128 {
                Some(*n as usize)
            } else {
                None
            }
        },
        _ => None,
    }
}

/// Reads the half-open length range of a text kind.
fn read_size_range(args: &[Value], lo: usize, hi: usize) -> (r: Option<(usize, usize)>)
    ensures
        r matches Some((a, b)) ==> size_range(view_args(args@), lo as nat, hi as nat) == Some(
            (a as nat, b as nat),
        ),
        r is None ==> size_range(view_args(args@), lo as nat, hi as nat) is None,
{
    let a = read_size(args, 1, lo);
    let b = read_size(args, 2, hi);
    match (a, b) {
        (Some(a), Some(b)) => if a < b {
            Some((a, b))
        } else {
            None
        },
        _ => None,
    }
}

/// A street address: a house number, a street name and a street suffix.
fn street_address() -> String {
    let number = draw_between(1, 9998);
    let mut s = int_to_string(number);
    s.append(" ");
    let street = fake_street_name();
    s.append(street.as_str());
    s.append(" ");
    let suffix = fake_street_suffix();
    s.append(suffix.as_str());
    s
}

/// Words separated by single spaces.
fn join_words(words: &Vec<String>) -> String {
    let mut s = String::new();
    let mut i: usize = 0;
    while i < words.len()
        decreases words.len() - i,
    {
        if i > 0 {
            s.append(" ");
        }
        s.append(words[i].as_str());
        i = i + 1;
    }
    s
}

impl FakeOperator {
    /// Draws a value of the kind that the first argument names; the other
    /// arguments are the kind's own. It fails exactly where `fake_fault`
    /// says, and what it draws is one that `fake_admits`.
    pub fn generate(args: &[Value]) -> (r: Result<Value, DataFakeError>)
        ensures
            fake_fault(view_args(args@)) matches Some(k) ==> (r matches Err(e) && e.spec_kind() == k),
            fake_fault(view_args(args@)) is None ==> (r matches Ok(v) && fake_admits(view_args(args@), v@)),
    {
        let ghost va = view_args(args@);
        if args.len() == 0 {
            return Err(fake_error("Fake operator requires at least one argument"));
        }
        assert(va[0] == args@[0]@);
        let name = match &args[0] {
            Value::Str(s) => s,
            _ => {
                return Err(fake_error("First argument must be a string"));
            },
        };
        let m = match method_from_name(name.as_str()) {
            Some(m) => m,
            None => {
                return Err(DataFakeError::UnknownFakeMethod(name.clone()));
            },
        };
        match domain_of(m) {
            Some((lo, hi)) => {
                return Self::generate_integer(args, m, lo, hi);
            },
            None => {},
        }
        match m {
            FakeMethod::F32 | FakeMethod::F64 => Err(
                DataFakeError::TypeConversion(String::from_str("floating-point values are not drawn")),
            ),
            FakeMethod::Bool => Ok(Value::Bool(draw_bool())),
            FakeMethod::Uuid => Ok(Value::Str(fake_uuid())),
            FakeMethod::StreetAddress => Ok(Value::Str(street_address())),
            FakeMethod::Latitude => Ok(Value::Float(fake_latitude())),
            FakeMethod::Longitude => Ok(Value::Float(fake_longitude())),
            FakeMethod::Password => match read_size_range(args, 8, 20) {
                Some((lo, hi)) => Ok(Value::Str(fake_password(lo, hi))),
                None => Err(fake_error("password takes a non-empty length range")),
            },
            FakeMethod::Sentence => match read_size_range(args, 4, 10) {
                Some((lo, hi)) => Ok(Value::Str(fake_sentence(lo, hi))),
                None => Err(fake_error("sentence takes a non-empty word count range")),
            },
            FakeMethod::Paragraph => match read_size_range(args, 3, 7) {
                Some((lo, hi)) => Ok(Value::Str(fake_paragraph(lo, hi))),
                None => Err(fake_error("paragraph takes a non-empty sentence count range")),
            },
            FakeMethod::Words => match read_size(args, 1, 5) {
                Some(n) => if n < usize::MAX {
                    let words = fake_words(n);
                    Ok(Value::Str(join_words(&words)))
                } else {
                    Err(fake_error("words takes a smaller count"))
                },
                None => Err(fake_error("words takes a count")),
            },
            FakeMethod::CityName => Ok(Value::Str(fake_city_name())),
            FakeMethod::CountryName => Ok(Value::Str(fake_country_name())),
            FakeMethod::CountryCode => Ok(Value::Str(fake_country_code())),
            FakeMethod::StateName => Ok(Value::Str(fake_state_name())),
            FakeMethod::StateAbbr => Ok(Value::Str(fake_state_abbr())),
            FakeMethod::ZipCode => Ok(Value::Str(fake_zip_code())),
            FakeMethod::PostCode => Ok(Value::Str(fake_post_code())),
            FakeMethod::StreetName => Ok(Value::Str(fake_street_name())),
            FakeMethod::StreetSuffix => Ok(Value::Str(fake_street_suffix())),
            FakeMethod::Name => Ok(Value::Str(fake_name())),
            FakeMethod::FirstName => Ok(Value::Str(fake_first_name())),
            FakeMethod::LastName => Ok(Value::Str(fake_last_name())),
            FakeMethod::NameWithTitle => Ok(Value::Str(fake_name_with_title())),
            FakeMethod::Title => Ok(Value::Str(fake_title())),
            FakeMethod::Suffix => Ok(Value::Str(fake_suffix())),
            FakeMethod::CompanyName => Ok(Value::Str(fake_company_name())),
            FakeMethod::CompanySuffix => Ok(Value::Str(fake_company_suffix())),
            FakeMethod::Industry => Ok(Value::Str(fake_industry())),
            FakeMethod::Profession => Ok(Value::Str(fake_profession())),
            FakeMethod::CatchPhrase => Ok(Value::Str(fake_catch_phrase())),
            FakeMethod::Bs => Ok(Value::Str(fake_bs())),
            FakeMethod::BsAdj => Ok(Value::Str(fake_bs_adj())),
            FakeMethod::BsNoun => Ok(Value::Str(fake_bs_noun())),
            FakeMethod::BsVerb => Ok(Value::Str(fake_bs_verb())),
            FakeMethod::SafeEmail => Ok(Value::Str(fake_safe_email())),
            FakeMethod::FreeEmail => Ok(Value::Str(fake_free_email())),
            FakeMethod::Username => Ok(Value::Str(fake_username())),
            FakeMethod::DomainSuffix => Ok(Value::Str(fake_domain_suffix())),
            FakeMethod::IPv4 => Ok(Value::Str(fake_ipv4())),
            FakeMethod::IPv6 => Ok(Value::Str(fake_ipv6())),
            FakeMethod::MacAddress => Ok(Value::Str(fake_mac_address())),
            FakeMethod::UserAgent => Ok(Value::Str(fake_user_agent())),
            FakeMethod::PhoneNumber => Ok(Value::Str(fake_phone_number())),
            FakeMethod::CellNumber => Ok(Value::Str(fake_cell_number())),
            FakeMethod::Bic => Ok(Value::Str(fake_bic())),
            FakeMethod::CreditCardNumber => Ok(Value::Str(fake_credit_card_number())),
            FakeMethod::CurrencyCode => Ok(Value::Str(fake_currency_code())),
            FakeMethod::CurrencyName => Ok(Value::Str(fake_currency_name())),
            FakeMethod::CurrencySymbol => Ok(Value::Str(fake_currency_symbol())),
            FakeMethod::Word => Ok(Value::Str(fake_word())),
            FakeMethod::Isbn10 => Ok(Value::Str(fake_isbn10())),
            FakeMethod::Isbn13 => Ok(Value::Str(fake_isbn13())),
            FakeMethod::FileName => Ok(Value::Str(fake_file_name())),
            FakeMethod::FileExtension => Ok(Value::Str(fake_file_extension())),
            FakeMethod::DirPath => Ok(Value::Str(fake_dir_path())),
            FakeMethod::FilePath => Ok(Value::Str(fake_file_path())),
            _ => Err(fake_error("Unknown fake method")),
        }
    }

    /// Draws an integer of an integral kind: from its whole domain with no
    /// bounds, else from the inclusive range of the two bounds.
    fn generate_integer(args: &[Value], m: FakeMethod, lo: i128, hi: i128) -> (r: Result<Value, DataFakeError>)
        requires
            args.len() >= 1,
            int_domain(m) == Some((lo as int, hi as int)),
        ensures
            int_range(m, view_args(args@)) matches Some((a, b)) ==> (r matches Ok(v) && v@ is Int
                && a <= v@->Int_0 <= b),
            int_range(m, view_args(args@)) is None ==> (r matches Err(e) && e.spec_kind()
                == ErrorKind::FakeOperator),
    {
        let ghost va = view_args(args@);
        if args.len() == 1 {
            return Ok(Value::Int(draw_between(lo, hi)));
        }
        if args.len() != 3 {
            return Err(fake_error("integral kinds take either no bounds or two"));
        }
        assert(va[1] == args@[1]@);
        assert(va[2] == args@[2]@);
        match (&args[1], &args[2]) {
            (Value::Int(a), Value::Int(b)) => {
                if lo <= *a && *a <= *b && *b <= hi {
                    Ok(Value::Int(draw_between(*a, *b)))
                } else {
                    Err(fake_error("bounds out of order or outside the kind's domain"))
                }
            },
            _ => Err(fake_error("bounds must be integers")),
        }
    }
}

} // verus!
