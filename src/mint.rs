use vstd::prelude::*;
use cdk::lightning_invoice::Bolt11InvoiceDescriptionRef;
use crate::error::{ErrorKind, WalletError, fails_with};
use crate::text::{
    strs, opt_view, occurs_at, contains_infix, chars_of, occurs_at_exec, contains_exec, string_of,
    concat2, push_char,
};

verus! {

/// The form that cdk's `MintUrl` gives a URL (scheme and host in lower case, no
/// trailing slashes), or `None` where it refuses it.
pub uninterp spec fn formatted_mint_url(url: Seq<char>) -> Option<Seq<char>>;

/// What cdk's `Token::from_str` reads from a token string: `None` where it is not
/// a token; otherwise the token's single mint URL, or `None` inside where the
/// token names several.
pub uninterp spec fn token_mint(token: Seq<char>) -> Option<Option<Seq<char>>>;

/// What a payment-network invoice holds, as lightning-invoice reads it: the
/// amount in millisatoshis if any, the description if given directly, and the
/// expiry in seconds; `None` where the text is not an invoice.
pub uninterp spec fn bolt11_fields(invoice: Seq<char>) -> Option<(Option<u64>, Option<Seq<char>>, u64)>;

/// Relies on cdk::mint_url::MintUrl::from_str and its Display: the formatted URL,
/// or `None` where it is refused (an empty string always is).
#[verifier::external_body]
fn format_mint_url(url: &str) -> (r: Option<String>)
    ensures
        opt_view(r) == formatted_mint_url(url@),
        url@.len() == 0 ==> r is None,
{
    <cdk::mint_url::MintUrl as std::str::FromStr>::from_str(url).ok().map(|u| u.to_string())
}

/// Relies on cdk::nuts::Token::from_str and Token::mint_url.
#[verifier::external_body]
fn read_token_mint(token: &str) -> (r: Option<Option<String>>)
    ensures
        match r {
            None => token_mint(token@) is None,
            Some(m) => token_mint(token@) == Some(opt_view(m)),
        },
{
    match <cdk::nuts::Token as std::str::FromStr>::from_str(token) {
        Ok(t) => Some(t.mint_url().ok().map(|u| u.to_string())),
        Err(_) => None,
    }
}

/// Relies on cdk::lightning_invoice::Bolt11Invoice::from_str and its accessors
/// amount_milli_satoshis, description and expiry_time.
#[verifier::external_body]
fn read_bolt11(invoice: &str) -> (r: Option<(Option<u64>, Option<String>, u64)>)
    ensures
        match r {
            None => bolt11_fields(invoice@) is None,
            Some((a, d, e)) => bolt11_fields(invoice@) == Some((a, opt_view(d), e)),
        },
{
    let inv = <cdk::lightning_invoice::Bolt11Invoice as std::str::FromStr>::from_str(invoice).ok()?;
    let description = match inv.description() {
        Bolt11InvoiceDescriptionRef::Direct(d) => Some(d.to_string()),
        Bolt11InvoiceDescriptionRef::Hash(_) => None,
    };
    Some((inv.amount_milli_satoshis(), description, inv.expiry_time().as_secs()))
}

/// A hidden-service URL over `https://` is rewritten to `http://`; any other URL
/// is kept.
pub open spec fn onion_as_http(url: Seq<char>) -> Seq<char> {
    if contains_infix(url, ".onion"@) && occurs_at(url, "https://"@, 0) {
        "http://"@ + url.skip(8)
    } else {
        url
    }
}

/// The canonical form under which a mint is known, or `None` for a URL that is refused.
pub open spec fn canonical_mint_url(url: Seq<char>) -> Option<Seq<char>> {
    formatted_mint_url(onion_as_http(url))
}

/// Brings a mint URL to its canonical form: hidden-service addresses use
/// `http://`, then cdk formats it. A refused URL is `InvalidInput`.
pub fn normalize_mint_url(mint_url: &str) -> (r: Result<String, WalletError>)
    ensures
        r is Ok <==> canonical_mint_url(mint_url@) is Some,
        r is Err ==> fails_with(r, ErrorKind::InvalidInput),
        r is Ok ==> r->Ok_0@ == canonical_mint_url(mint_url@)->0,
{
    let chars = chars_of(mint_url);
    let onion = chars_of(".onion");
    let https = chars_of("https://");
    proof {
        reveal_strlit("https://");
    }
    let rewritten = if contains_exec(&chars, &onion) && occurs_at_exec(&chars, &https, 0) {
        let rest = mint_url.substring_char(8, chars.len());
        concat2("http://", rest)
    } else {
        String::from_str(mint_url)
    };
    match format_mint_url(rewritten.as_str()) {
        Some(u) => Ok(u),
        None => Err(WalletError::new(ErrorKind::InvalidInput, "invalid mint URL")),
    }
}

/// What a token string tells before any mint is asked.
#[derive(Debug)]
pub struct TokenSummary {
    /// The token's mint, or `None` where it names several.
    pub mint_url: Option<String>,
}

/// Reads the mint of a token string; text that is not a token is `InvalidInput`.
pub fn parse_cashu_token(token: &str) -> (r: Result<TokenSummary, WalletError>)
    ensures
        r is Ok <==> token_mint(token@) is Some,
        r is Err ==> fails_with(r, ErrorKind::InvalidInput),
        r is Ok ==> token_mint(token@) == Some(opt_view(r->Ok_0.mint_url)),
{
    match read_token_mint(token) {
        Some(m) => Ok(TokenSummary { mint_url: m }),
        None => Err(WalletError::new(ErrorKind::InvalidInput, "failed to parse token")),
    }
}

/// The fields of a decoded invoice.
#[derive(Debug)]
pub struct InvoiceSummary {
    pub amount_sats: u64,
    pub amount_msat: u64,
    pub description: String,
    pub expiry_secs: u64,
}

/// Description shown for an invoice that carries only a description hash.
pub open spec fn hashed_description() -> Seq<char> {
    "Hash-based description"@
}

/// Decodes an invoice: amount in millisatoshis and in whole satoshis (rounded
/// down), description and expiry. Text that is not an invoice is `InvalidInput`;
/// an invoice without an amount is `InvoiceMissingAmount`.
pub fn decode_bolt11_invoice(invoice: &str) -> (r: Result<InvoiceSummary, WalletError>)
    ensures
        bolt11_fields(invoice@) is None <==> fails_with(r, ErrorKind::InvalidInput),
        bolt11_fields(invoice@) is Some && bolt11_fields(invoice@)->0 matches (None, _, _) <==> fails_with(
            r,
            ErrorKind::InvoiceMissingAmount,
        ),
        bolt11_fields(invoice@) matches Some((Some(_), _, _)) <==> r is Ok,
        r is Ok ==> {
            let (a, d, e) = bolt11_fields(invoice@)->0;
            let s = r->Ok_0;
            &&& a == Some(s.amount_msat)
            &&& s.amount_sats == s.amount_msat / 1000
            &&& s.expiry_secs == e
            &&& s.description@ == match d {
                Some(t) => t,
                None => hashed_description(),
            }
        },
{
    let (amount, description, expiry) = match read_bolt11(invoice) {
        Some(f) => f,
        None => {
            return Err(WalletError::new(ErrorKind::InvalidInput, "failed to parse invoice"));
        },
    };
    let amount_msat = match amount {
        Some(a) => a,
        None => {
            return Err(
                WalletError::new(
                    ErrorKind::InvoiceMissingAmount,
                    "invoice does not contain an amount",
                ),
            );
        },
    };
    let description = match description {
        Some(d) => d,
        None => String::from_str("Hash-based description"),
    };
    Ok(InvoiceSummary {
        amount_sats: amount_msat / 1000,
        amount_msat,
        description,
        expiry_secs: expiry,
    })
}

/// Which optional behaviours a mint advertises, as plain values.
#[derive(Debug, Clone, Copy)]
pub struct NutSupport {
    pub nut07: bool,
    pub nut08: bool,
    pub nut09: bool,
    pub nut10: bool,
    pub nut11: bool,
    pub nut12: bool,
    pub nut14: bool,
    pub nut15_methods: usize,
    pub nut17_supported: usize,
    pub nut19_ttl: bool,
    pub nut19_cached_endpoints: usize,
    pub nut20: bool,
}

pub open spec fn add_if(s: Seq<Seq<char>>, c: bool, label: Seq<char>) -> Seq<Seq<char>> {
    if c {
        s.push(label)
    } else {
        s
    }
}

/// The labels of the extensions a mint supports, in order; minting and melting
/// are always listed, an absent flag is left out.
pub open spec fn nut_labels(n: NutSupport) -> Seq<Seq<char>> {
    let s = seq!["NUT-04"@, "NUT-05"@];
    let s = add_if(s, n.nut07, "NUT-07"@);
    let s = add_if(s, n.nut08, "NUT-08"@);
    let s = add_if(s, n.nut09, "NUT-09"@);
    let s = add_if(s, n.nut10, "NUT-10"@);
    let s = add_if(s, n.nut11, "NUT-11"@);
    let s = add_if(s, n.nut12, "NUT-12"@);
    let s = add_if(s, n.nut14, "NUT-14"@);
    let s = add_if(s, n.nut15_methods > 0, "NUT-15"@);
    let s = add_if(s, n.nut17_supported > 0, "NUT-17"@);
    let s = add_if(s, n.nut19_ttl || n.nut19_cached_endpoints > 0, "NUT-19"@);
    add_if(s, n.nut20, "NUT-20"@)
}

fn push_if(v: &mut Vec<String>, c: bool, label: &str)
    ensures
        strs(final(v)@) == add_if(strs(old(v)@), c, label@),
{
    if c {
        let s = String::from_str(label);
        v.push(s);
        assert(strs(v@) =~= strs(old(v)@).push(label@));
    }
}

/// The labels of the extensions that `nuts` marks as supported.
pub fn extract_supported_nuts(nuts: &NutSupport) -> (r: Vec<String>)
    ensures
        strs(r@) == nut_labels(*nuts),
{
    let mut v: Vec<String> = Vec::new();
    v.push(String::from_str("NUT-04"));
    v.push(String::from_str("NUT-05"));
    assert(strs(v@) =~= seq!["NUT-04"@, "NUT-05"@]);
    push_if(&mut v, nuts.nut07, "NUT-07");
    push_if(&mut v, nuts.nut08, "NUT-08");
    push_if(&mut v, nuts.nut09, "NUT-09");
    push_if(&mut v, nuts.nut10, "NUT-10");
    push_if(&mut v, nuts.nut11, "NUT-11");
    push_if(&mut v, nuts.nut12, "NUT-12");
    push_if(&mut v, nuts.nut14, "NUT-14");
    push_if(&mut v, nuts.nut15_methods > 0, "NUT-15");
    push_if(&mut v, nuts.nut17_supported > 0, "NUT-17");
    push_if(&mut v, nuts.nut19_ttl || nuts.nut19_cached_endpoints > 0, "NUT-19");
    push_if(&mut v, nuts.nut20, "NUT-20");
    v
}

/// A way to reach a mint's operator.
#[derive(Debug, Clone)]
pub struct ContactInfo {
    pub method: String,
    pub info: String,
}

/// A mint's capability descriptor, as this wallet presents it.
#[derive(Debug, Clone)]
pub struct MintInfo {
    pub name: Option<String>,
    pub version: Option<String>,
    pub description: Option<String>,
    pub description_long: Option<String>,
    pub contact: Option<Vec<ContactInfo>>,
    pub motd: Option<String>,
    pub icon_url: Option<String>,
    pub urls: Option<Vec<String>>,
    pub nuts: Option<Vec<String>>,
    pub public_key: Option<String>,
    pub additional_info: Option<String>,
}

/// A mint's capability descriptor as fetched, with its extension flags.
#[derive(Debug, Clone)]
pub struct MintCapabilities {
    pub name: Option<String>,
    pub version: Option<String>,
    pub description: Option<String>,
    pub description_long: Option<String>,
    pub contact: Option<Vec<ContactInfo>>,
    pub motd: Option<String>,
    pub icon_url: Option<String>,
    pub urls: Option<Vec<String>>,
    pub nuts: NutSupport,
}

/// Presents a fetched descriptor: its fields as they are, the extension flags as
/// labels, and no public key or additional information.
pub fn build_mint_info(caps: MintCapabilities) -> (r: MintInfo)
    ensures
        r.name == caps.name,
        r.version == caps.version,
        r.description == caps.description,
        r.description_long == caps.description_long,
        r.contact == caps.contact,
        r.motd == caps.motd,
        r.icon_url == caps.icon_url,
        r.urls == caps.urls,
        r.nuts is Some && strs(r.nuts->0@) == nut_labels(caps.nuts),
        r.public_key is None,
        r.additional_info is None,
{
    let nuts = extract_supported_nuts(&caps.nuts);
    MintInfo {
        name: caps.name,
        version: caps.version,
        description: caps.description,
        description_long: caps.description_long,
        contact: caps.contact,
        motd: caps.motd,
        icon_url: caps.icon_url,
        urls: caps.urls,
        nuts: Some(nuts),
        public_key: None,
        additional_info: None,
    }
}

/// `url` with each `://` and then each remaining `/` replaced by `_`.
pub open spec fn flatten_url(url: Seq<char>) -> Seq<char>
    decreases url.len(),
{
    if url.len() == 0 {
        url
    } else if url.len() >= 3 && url.take(3) == "://"@ {
        seq!['_'] + flatten_url(url.skip(3))
    } else {
        seq![if url[0] == '/' { '_' } else { url[0] }] + flatten_url(url.skip(1))
    }
}

/// `dir` joined with the relative path `name`, as a path buffer joins them.
pub open spec fn join_path(dir: Seq<char>, name: Seq<char>) -> Seq<char> {
    if dir.len() == 0 {
        name
    } else if dir.last() == '/' {
        dir + name
    } else {
        dir + seq!['/'] + name
    }
}

/// Where the database of the wallet for `mint_url` lies under `base_dir`.
pub open spec fn database_path(base_dir: Seq<char>, mint_url: Seq<char>) -> Seq<char> {
    join_path(
        join_path(base_dir, "wallet_data"@),
        "wallet_"@ + flatten_url(mint_url) + ".db"@,
    )
}

fn flatten_url_exec(url: &Vec<char>) -> (r: Vec<char>)
    ensures
        r@ == flatten_url(url@),
{
    proof {
        reveal_strlit("://");
    }
    let sep = chars_of("://");
    let mut out: Vec<char> = Vec::new();
    let mut i: usize = 0;
    assert(url@.skip(0) =~= url@);
    assert(out@ + flatten_url(url@) =~= flatten_url(url@));
    while i < url.len()
        invariant
            i <= url.len(),
            sep@ == "://"@,
            sep@.len() == 3,
            out@ + flatten_url(url@.skip(i as int)) == flatten_url(url@),
        decreases url.len() - i,
    {
        let ghost rest = url@.skip(i as int);
        if occurs_at_exec(url, &sep, i) {
            assert(rest.take(3) =~= url@.subrange(i as int, i + 3));
            assert(rest.skip(3) =~= url@.skip(i + 3));
            out.push('_');
            i += 3;
        } else {
            proof {
                if rest.len() >= 3 && rest.take(3) == "://"@ {
                    assert(url@.subrange(i as int, i + 3) =~= rest.take(3));
                }
                assert(rest.skip(1) =~= url@.skip(i + 1));
            }
            let c = url[i];
            out.push(if c == '/' {
                '_'
            } else {
                c
            });
            i += 1;
        }
    }
    assert(url@.skip(i as int) =~= Seq::<char>::empty());
    assert(out@ + flatten_url(url@.skip(i as int)) =~= out@);
    out
}

fn join_path_exec(dir: &String, name: &String) -> (r: String)
    ensures
        r@ == join_path(dir@, name@),
{
    let d = chars_of(dir.as_str());
    if d.len() == 0 {
        name.clone()
    } else if d[d.len() - 1] == '/' {
        concat2(dir.as_str(), name.as_str())
    } else {
        let mut s = dir.clone();
        push_char(&mut s, '/');
        let r = s.concat(name.as_str());
        assert(r@ =~= dir@ + seq!['/'] + name@);
        r
    }
}

/// The path of the database that holds the wallet for `mint_url` under `base_dir`.
pub fn get_database_path(base_dir: &str, mint_url: &str) -> (r: String)
    ensures
        r@ == database_path(base_dir@, mint_url@),
{
    let flat = string_of(&flatten_url_exec(&chars_of(mint_url)));
    let name = concat2("wallet_", flat.as_str()).concat(".db");
    let dir = join_path_exec(&String::from_str(base_dir), &String::from_str("wallet_data"));
    join_path_exec(&dir, &name)
}

/// Relies on std::path::Path::exists; what is on disk decides the result.
#[verifier::external_body]
fn path_exists(path: &str) -> (r: bool) {
    std::path::Path::new(path).exists()
}

/// Whether a database for the wallet of `mint_url` exists under `base_dir`.
pub fn wallet_database_exists(base_dir: &str, mint_url: &str) -> (r: bool) {
    let path = get_database_path(base_dir, mint_url);
    path_exists(path.as_str())
}

} // verus!
