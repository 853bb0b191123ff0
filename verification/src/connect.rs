//! The REST client's own logic: credentials, the addresses and forms of its
//! requests, the session checksum and the verdict on a response.
use crate::error::{verdict_view, KiteError, KiteErrorView};
use crate::json::{json_member, json_string_member};
use crate::text::{contains, contains_text, decimal, push_decimal};
use vstd::prelude::*;

verus! {

/// The root of every REST address.
pub const BASE_URL: &'static str = "https://api.kite.trade";

/// The API version that every request announces.
pub const KITE_VERSION: &'static str = "3";

/// The text of `BASE_URL`.
pub open spec fn base_url_text() -> Seq<char> {
    seq![
        'h', 't', 't', 'p', 's', ':', '/', '/', 'a', 'p', 'i', '.', 'k', 'i', 't', 'e', '.', 't',
        'r', 'a', 'd', 'e',
    ]
}

/// The SHA-256 digest (sha2) of the UTF-8 encoding of `text`.
pub uninterp spec fn sha256_of_text(text: Seq<char>) -> Seq<u8>;

/// `sha2::Sha256::digest` of the string's UTF-8 bytes: the result is named by
/// `sha256_of_text`; its 32 bytes are the output size that sha2 fixes for
/// SHA-256.
#[verifier::external_body]
fn sha256_digest(text: &str) -> (digest: Vec<u8>)
    ensures
        digest@ == sha256_of_text(text@),
        digest@.len() == 32,
{
    <sha2::Sha256 as sha2::Digest>::digest(text.as_bytes()).to_vec()
}

/// The lower-case hexadecimal digit of `v` (0 to 15).
pub open spec fn hex_digit(v: int) -> char {
    seq!['0', '1', '2', '3', '4', '5', '6', '7', '8', '9', 'a', 'b', 'c', 'd', 'e', 'f'][v]
}

/// Two lower-case hexadecimal digits per byte, the high half first.
pub open spec fn hex_text(bytes: Seq<u8>) -> Seq<char>
    decreases bytes.len(),
{
    if bytes.len() == 0 {
        Seq::empty()
    } else {
        seq![hex_digit(bytes[0] as int / 16), hex_digit(bytes[0] as int % 16)] + hex_text(bytes.drop_first())
    }
}

proof fn lemma_hex_text_len(bytes: Seq<u8>)
    ensures
        hex_text(bytes).len() == 2 * bytes.len(),
    decreases bytes.len(),
{
    if bytes.len() > 0 {
        lemma_hex_text_len(bytes.drop_first());
    }
}

/// `hex::encode`: two lower-case hexadecimal digits per byte, the high half
/// first, as its source writes them from its lower-case table.
#[verifier::external_body]
fn hex_encode(bytes: &Vec<u8>) -> (text: String)
    ensures
        text@ == hex_text(bytes@),
{
    hex::encode(bytes)
}

/// The checksum that the session endpoints ask for: the hexadecimal SHA-256
/// digest of the API key, the token and the API secret, run together.
pub open spec fn checksum_text(api_key: Seq<char>, token: Seq<char>, api_secret: Seq<char>) -> Seq<
    char,
> {
    hex_text(sha256_of_text(api_key + token + api_secret))
}

/// `BASE_URL` followed by `path`.
pub fn endpoint_url(path: &str) -> (url: String)
    ensures
        url@ == base_url_text() + path@,
{
    proof {
        reveal_strlit("https://api.kite.trade");
    }
    let mut url = BASE_URL.to_string();
    assert(url@ =~= base_url_text());
    url.append(path);
    url
}

/// Every REST address that the client builds lies under the API host: those
/// of `endpoint_url` for any path that starts with `/` (as every path of the
/// client does), and those of `historical_url`.
pub proof fn law_addresses_under_base_url(
    path: Seq<char>,
    instrument_token: Seq<char>,
    from_date: Seq<char>,
    to_date: Seq<char>,
    interval: Seq<char>,
)
    requires
        path.len() > 0 && path[0] == '/',
    ensures
        (base_url_text() + seq!['/']).is_prefix_of(base_url_text() + path),
        (base_url_text() + seq!['/']).is_prefix_of(
            base_url_text() + "/instruments/historical/"@ + instrument_token + "/"@ + interval
                + "?from="@ + from_date + "&to="@ + to_date + "&continuous=false"@,
        ),
{
    reveal_strlit("/instruments/historical/");
    let n = base_url_text().len() as int;
    let tail = "/instruments/historical/"@ + instrument_token + "/"@ + interval + "?from="@
        + from_date + "&to="@ + to_date + "&continuous=false"@;
    assert(tail[0] == '/');
    assert((base_url_text() + path).subrange(0, n + 1) =~= base_url_text() + seq!['/']);
    assert(base_url_text() + "/instruments/historical/"@ + instrument_token + "/"@ + interval
        + "?from="@ + from_date + "&to="@ + to_date + "&continuous=false"@ =~= base_url_text()
        + tail);
    assert((base_url_text() + tail).subrange(0, n + 1) =~= base_url_text() + seq!['/']);
}

/// The path of the margins of one segment, or of all of them.
pub fn margins_path(segment: Option<&str>) -> (path: String)
    ensures
        path@ == match segment {
            Some(s) => "/user/margins/"@ + s@,
            None => "/user/margins"@,
        },
{
    match segment {
        Some(s) => {
            let mut path = "/user/margins/".to_string();
            path.append(s);
            path
        },
        None => "/user/margins".to_string(),
    }
}

/// The path of the instrument list of one exchange, or of all of them.
pub fn instruments_path(exchange: Option<&str>) -> (path: String)
    ensures
        path@ == match exchange {
            Some(e) => "/instruments/"@ + e@,
            None => "/instruments"@,
        },
{
    match exchange {
        Some(e) => {
            let mut path = "/instruments/".to_string();
            path.append(e);
            path
        },
        None => "/instruments".to_string(),
    }
}

/// The path of an order's history.
pub fn order_path(order_id: &str) -> (path: String)
    ensures
        path@ == "/orders/"@ + order_id@,
{
    let mut path = "/orders/".to_string();
    path.append(order_id);
    path
}

/// The path of an order's trades.
pub fn order_trades_path(order_id: &str) -> (path: String)
    ensures
        path@ == "/orders/"@ + order_id@ + "/trades"@,
{
    let mut path = "/orders/".to_string();
    path.append(order_id);
    path.append("/trades");
    path
}

/// The path under which an order of a variety is modified or cancelled.
pub fn variety_order_path(variety: &str, order_id: &str) -> (path: String)
    ensures
        path@ == "/orders/"@ + variety@ + "/"@ + order_id@,
{
    let mut path = "/orders/".to_string();
    path.append(variety);
    path.append("/");
    path.append(order_id);
    path
}

/// The path of a GTT trigger.
pub fn gtt_path(trigger_id: u64) -> (path: String)
    ensures
        path@ == "/gtt/triggers/"@ + decimal(trigger_id as nat),
{
    let mut path = "/gtt/triggers/".to_string();
    push_decimal(&mut path, trigger_id);
    path
}

/// The address of an instrument's candles over a date range.
pub fn historical_url(instrument_token: &str, from_date: &str, to_date: &str, interval: &str) -> (url:
    String)
    ensures
        url@ == base_url_text() + "/instruments/historical/"@ + instrument_token@ + "/"@
            + interval@ + "?from="@ + from_date@ + "&to="@ + to_date@ + "&continuous=false"@,
{
    let mut url = endpoint_url("/instruments/historical/");
    url.append(instrument_token);
    url.append("/");
    url.append(interval);
    url.append("?from=");
    url.append(from_date);
    url.append("&to=");
    url.append(to_date);
    url.append("&continuous=false");
    url
}

/// The query of a quote request: one `i` parameter per instrument, in order.
pub fn instrument_query(instruments: &[&str]) -> (query: Vec<(String, String)>)
    ensures
        query@.len() == instruments@.len(),
        forall|k: int|
            0 <= k < instruments@.len() ==> (#[trigger] query@[k]).0@ == "i"@ && query@[k].1@
                == instruments@[k]@,
{
    let mut query: Vec<(String, String)> = Vec::new();
    let mut k: usize = 0;
    while k < instruments.len()
        invariant
            k <= instruments@.len(),
            query@.len() == k,
            forall|j: int|
                0 <= j < k ==> (#[trigger] query@[j]).0@ == "i"@ && query@[j].1@
                    == instruments@[j]@,
        decreases instruments@.len() - k,
    {
        query.push(("i".to_string(), instruments[k].to_string()));
        k = k + 1;
    }
    query
}

/// The verdict on a response with HTTP status `status` whose body has the
/// string members `error_type` and `message` (as far as it has them): a 403
/// whose error type mentions `Token` is an expired session; any other status
/// from 400 up is an API error carrying the status and the message (or
/// `Unknown error`); anything below 400 is a success.
pub open spec fn response_verdict(
    status: u16,
    error_type: Option<Seq<char>>,
    message: Option<Seq<char>>,
) -> Result<(), KiteErrorView> {
    let kind = match error_type {
        Some(t) => t,
        None => Seq::empty(),
    };
    if status == 403 && contains_text(kind, "Token"@) {
        Err(KiteErrorView::SessionExpired)
    } else if status >= 400 {
        Err(
            KiteErrorView::Api {
                status,
                message: match message {
                    Some(m) => m,
                    None => "Unknown error"@,
                },
            },
        )
    } else {
        Ok(())
    }
}

proof fn lemma_token_exception_mentions_token(kind: Seq<char>)
    ensures
        contains_text(kind, "TokenException"@) ==> contains_text(kind, "Token"@),
{
    reveal_strlit("TokenException");
    reveal_strlit("Token");
    if contains_text(kind, "TokenException"@) {
        let i = choose|i: int|
            0 <= i && i + "TokenException"@.len() <= kind.len() && #[trigger] kind.subrange(
                i,
                i + "TokenException"@.len(),
            ) == "TokenException"@;
        assert(kind.subrange(i, i + 5) =~= "Token"@) by {
            assert forall|t: int| 0 <= t < 5 implies kind.subrange(i, i + 5)[t] == "Token"@[t] by {
                assert(kind.subrange(i, i + 14)[t] == kind[i + t]);
            }
        }
    }
}

/// A 403 whose error type is `TokenException` is reported as an expired
/// session, whatever the message.
pub proof fn law_token_exception_expires_session(message: Option<Seq<char>>)
    ensures
        response_verdict(403, Some("TokenException"@), message) == Err::<(), KiteErrorView>(
            KiteErrorView::SessionExpired,
        ),
{
    reveal_strlit("TokenException");
    reveal_strlit("Token");
    assert("TokenException"@.subrange(0, 0 + "Token"@.len() as int) =~= "Token"@);
}

/// Every status below 400 is a success, whatever the body says.
pub proof fn law_success_below_400(
    status: u16,
    error_type: Option<Seq<char>>,
    message: Option<Seq<char>>,
)
    requires
        status < 400,
    ensures
        response_verdict(status, error_type, message) == Ok::<(), KiteErrorView>(()),
{
}

/// Every status from 400 up is an error: an expired session or an API error
/// that carries the status.
pub proof fn law_failure_from_400(status: u16, error_type: Option<Seq<char>>, message: Option<Seq<char>>)
    requires
        status >= 400,
    ensures
        response_verdict(status, error_type, message) matches Err(e) && (e is SessionExpired || (
        e matches KiteErrorView::Api { status: s, .. } && s == status)),
{
}

/// Only a 403 whose error type mentions `Token` is an expired session; every
/// other status from 400 up, a 403 without such an error type included, is an
/// API error that carries the status and the body's message, or
/// `Unknown error` where the body has none.
pub proof fn law_api_error_unless_token_expired(
    status: u16,
    error_type: Option<Seq<char>>,
    message: Option<Seq<char>>,
)
    ensures
        (response_verdict(status, error_type, message) == Err::<(), KiteErrorView>(
            KiteErrorView::SessionExpired,
        )) <==> (status == 403 && (error_type matches Some(t) && contains_text(t, "Token"@))),
        (status >= 400 && !(status == 403 && (error_type matches Some(t) && contains_text(
            t,
            "Token"@,
        )))) ==> response_verdict(status, error_type, message) == Err::<(), KiteErrorView>(
            KiteErrorView::Api {
                status,
                message: match message {
                    Some(m) => m,
                    None => "Unknown error"@,
                },
            },
        ),
{
    reveal_strlit("Token");
    assert(!contains_text(Seq::<char>::empty(), "Token"@));
}

/// The verdict on a response, from the members of its body that decide it.
pub fn response_error(status: u16, error_type: Option<String>, message: Option<String>) -> (r: Result<
    (),
    KiteError,
>)
    ensures
        verdict_view(r) == response_verdict(
            status,
            match error_type {
                Some(t) => Some(t@),
                None => None,
            },
            match message {
                Some(m) => Some(m@),
                None => None,
            },
        ),
{
    if status == 403 {
        let kind = match &error_type {
            Some(t) => t.as_str(),
            None => "",
        };
        proof {
            reveal_strlit("");
            assert(""@ =~= Seq::<char>::empty());
            lemma_token_exception_mentions_token(kind@);
        }
        if contains(kind, "Token") || contains(kind, "TokenException") {
            return Err(KiteError::SessionExpired);
        }
    }
    if status >= 400 {
        let message = match message {
            Some(m) => m,
            None => "Unknown error".to_string(),
        };
        return Err(KiteError::Api { status, message });
    }
    Ok(())
}

/// The verdict on a response with HTTP status `status` and body `body`,
/// reading the body's members `error_type` and `message` with serde_json.
pub fn check_response(status: u16, body: &str) -> (r: Result<(), KiteError>)
    ensures
        verdict_view(r) == response_verdict(
            status,
            json_string_member(body@, "error_type"@),
            json_string_member(body@, "message"@),
        ),
{
    let error_type = json_member(body, "error_type");
    let message = json_member(body, "message");
    response_error(status, error_type, message)
}

/// The candle endpoint answers an expired session with the error type
/// `TokenException`.
pub fn check_candles_session(error_type: Option<&str>) -> (r: Result<(), KiteError>)
    ensures
        verdict_view(r) == if error_type matches Some(t) && t@ == "TokenException"@ {
            Err(KiteErrorView::SessionExpired)
        } else {
            Ok(())
        },
{
    match error_type {
        Some(t) => {
            let expected = "TokenException".to_string();
            if t.to_string() == expected {
                Err(KiteError::SessionExpired)
            } else {
                Ok(())
            }
        },
        None => Ok(()),
    }
}

/// The names and texts of a list of form fields.
pub open spec fn form_view(form: Seq<(String, String)>) -> Seq<(Seq<char>, Seq<char>)> {
    form.map_values(|field: (String, String)| (field.0@, field.1@))
}

/// The text of an optional argument.
pub open spec fn optional_text(value: Option<&str>) -> Option<Seq<char>> {
    match value {
        Some(v) => Some(v@),
        None => None,
    }
}

/// The field `name` where `value` is given, and nothing otherwise.
pub open spec fn optional_field(name: Seq<char>, value: Option<Seq<char>>) -> Seq<
    (Seq<char>, Seq<char>),
> {
    match value {
        Some(v) => seq![(name, v)],
        None => Seq::empty(),
    }
}

/// The form of a new order, fields in the order of their names: the seven
/// fixed fields, and the price, trigger price and validity where given.
pub open spec fn order_form_text(
    variety: Seq<char>,
    exchange: Seq<char>,
    tradingsymbol: Seq<char>,
    transaction_type: Seq<char>,
    quantity: u32,
    product: Seq<char>,
    order_type: Seq<char>,
    price: Option<Seq<char>>,
    validity: Option<Seq<char>>,
    trigger_price: Option<Seq<char>>,
) -> Seq<(Seq<char>, Seq<char>)> {
    seq![("exchange"@, exchange), ("order_type"@, order_type)] + optional_field("price"@, price)
        + seq![
        ("product"@, product),
        ("quantity"@, decimal(quantity as nat)),
        ("tradingsymbol"@, tradingsymbol),
        ("transaction_type"@, transaction_type),
    ] + optional_field("trigger_price"@, trigger_price) + optional_field("validity"@, validity)
        + seq![("variety"@, variety)]
}

/// Every optional argument of an order that is given stands in its form
/// under its own name with its own text, whatever the other optional
/// arguments are, and one that is not given has no field; the seven fixed
/// fields are always there, so the form has seven fields and one more for
/// each optional argument given.
pub proof fn law_order_form_fields(
    variety: Seq<char>,
    exchange: Seq<char>,
    tradingsymbol: Seq<char>,
    transaction_type: Seq<char>,
    quantity: u32,
    product: Seq<char>,
    order_type: Seq<char>,
    price: Option<Seq<char>>,
    validity: Option<Seq<char>>,
    trigger_price: Option<Seq<char>>,
)
    ensures
        ({
            let form = order_form_text(
                variety,
                exchange,
                tradingsymbol,
                transaction_type,
                quantity,
                product,
                order_type,
                price,
                validity,
                trigger_price,
            );
            &&& price matches Some(p) ==> form.contains(("price"@, p))
            &&& price is None ==> forall|i: int| 0 <= i < form.len() ==> (#[trigger] form[i]).0
                != "price"@
            &&& trigger_price matches Some(p) ==> form.contains(("trigger_price"@, p))
            &&& trigger_price is None ==> forall|i: int| 0 <= i < form.len() ==> (
            #[trigger] form[i]).0 != "trigger_price"@
            &&& validity matches Some(v) ==> form.contains(("validity"@, v))
            &&& validity is None ==> forall|i: int| 0 <= i < form.len() ==> (
            #[trigger] form[i]).0 != "validity"@
            &&& form.contains(("exchange"@, exchange))
            &&& form.contains(("order_type"@, order_type))
            &&& form.contains(("product"@, product))
            &&& form.contains(("quantity"@, decimal(quantity as nat)))
            &&& form.contains(("tradingsymbol"@, tradingsymbol))
            &&& form.contains(("transaction_type"@, transaction_type))
            &&& form.contains(("variety"@, variety))
            &&& form.len() == 7 + (if price is Some {
                1int
            } else {
                0int
            }) + (if trigger_price is Some {
                1int
            } else {
                0int
            }) + (if validity is Some {
                1int
            } else {
                0int
            })
        }),
{
    reveal_strlit("price");
    reveal_strlit("trigger_price");
    reveal_strlit("validity");
    reveal_strlit("exchange");
    reveal_strlit("order_type");
    reveal_strlit("product");
    reveal_strlit("quantity");
    reveal_strlit("tradingsymbol");
    reveal_strlit("transaction_type");
    reveal_strlit("variety");
    let form = order_form_text(
        variety,
        exchange,
        tradingsymbol,
        transaction_type,
        quantity,
        product,
        order_type,
        price,
        validity,
        trigger_price,
    );
    let np: int = if price is Some {
        1
    } else {
        0
    };
    let nt: int = if trigger_price is Some {
        1
    } else {
        0
    };
    let nv: int = if validity is Some {
        1
    } else {
        0
    };
    assert(form.len() == 7 + np + nt + nv);
    assert(form[0] == ("exchange"@, exchange));
    assert(form[1] == ("order_type"@, order_type));
    assert(form[2 + np] == ("product"@, product));
    assert(form[3 + np] == ("quantity"@, decimal(quantity as nat)));
    assert(form[4 + np] == ("tradingsymbol"@, tradingsymbol));
    assert(form[5 + np] == ("transaction_type"@, transaction_type));
    assert(form[6 + np + nt + nv] == ("variety"@, variety));
    if let Some(p) = price {
        assert(form[2] == ("price"@, p));
    }
    if let Some(p) = trigger_price {
        assert(form[6 + np] == ("trigger_price"@, p));
    }
    if let Some(v) = validity {
        assert(form[6 + np + nt] == ("validity"@, v));
    }
    assert forall|i: int| 0 <= i < form.len() implies {
        &&& price is None ==> (#[trigger] form[i]).0 != "price"@
        &&& trigger_price is None ==> form[i].0 != "trigger_price"@
        &&& validity is None ==> form[i].0 != "validity"@
    } by {
        let name = form[i].0;
        assert(name == "exchange"@ || name == "order_type"@ || name == "product"@ || name
            == "quantity"@ || name == "tradingsymbol"@ || name == "transaction_type"@ || name
            == "variety"@ || (price is Some && name == "price"@) || (trigger_price is Some
            && name == "trigger_price"@) || (validity is Some && name == "validity"@));
        assert("tradingsymbol"@[2] != "trigger_price"@[2]);
        assert("exchange"@[0] != "validity"@[0] && "quantity"@[0] != "validity"@[0]);
        if price is None {
            assert(name != "price"@);
        }
        if trigger_price is None {
            assert(name != "trigger_price"@);
        }
        if validity is None {
            assert(name != "validity"@);
        }
    }
}

/// Appends the field `name` where `value` is given.
fn push_optional(form: &mut Vec<(String, String)>, name: &str, value: Option<&str>)
    ensures
        form_view(final(form)@) == form_view(old(form)@) + optional_field(
            name@,
            optional_text(value),
        ),
{
    match value {
        Some(v) => {
            form.push((name.to_string(), v.to_string()));
            assert(form_view(final(form)@) =~= form_view(old(form)@) + seq![(name@, v@)]);
        },
        None => {
            assert(form_view(old(form)@) + Seq::empty() =~= form_view(old(form)@));
        },
    }
}

/// Appends the field `name` with the text `value`.
fn push_field(form: &mut Vec<(String, String)>, name: &str, value: String)
    ensures
        form_view(final(form)@) == form_view(old(form)@) + seq![(name@, value@)],
{
    form.push((name.to_string(), value));
    assert(form_view(final(form)@) =~= form_view(old(form)@) + seq![(name@, value@)]);
}

/// The form that places a new order. The price and trigger price come as
/// the texts of the numbers.
pub fn order_form(
    variety: &str,
    exchange: &str,
    tradingsymbol: &str,
    transaction_type: &str,
    quantity: u32,
    product: &str,
    order_type: &str,
    price: Option<&str>,
    validity: Option<&str>,
    trigger_price: Option<&str>,
) -> (form: Vec<(String, String)>)
    ensures
        form_view(form@) == order_form_text(
            variety@,
            exchange@,
            tradingsymbol@,
            transaction_type@,
            quantity,
            product@,
            order_type@,
            optional_text(price),
            optional_text(validity),
            optional_text(trigger_price),
        ),
{
    let mut form: Vec<(String, String)> = Vec::new();
    assert(form_view(form@) =~= Seq::empty());
    push_field(&mut form, "exchange", exchange.to_string());
    push_field(&mut form, "order_type", order_type.to_string());
    push_optional(&mut form, "price", price);
    push_field(&mut form, "product", product.to_string());
    let mut amount = String::new();
    push_decimal(&mut amount, quantity as u64);
    assert(amount@ =~= decimal(quantity as nat));
    push_field(&mut form, "quantity", amount);
    push_field(&mut form, "tradingsymbol", tradingsymbol.to_string());
    push_field(&mut form, "transaction_type", transaction_type.to_string());
    push_optional(&mut form, "trigger_price", trigger_price);
    push_optional(&mut form, "validity", validity);
    push_field(&mut form, "variety", variety.to_string());
    assert(form_view(form@) =~= order_form_text(
        variety@,
        exchange@,
        tradingsymbol@,
        transaction_type@,
        quantity,
        product@,
        order_type@,
        optional_text(price),
        optional_text(validity),
        optional_text(trigger_price),
    ));
    form
}

/// The credentials of a REST client.
pub struct KiteClient {
    api_key: String,
    access_token: String,
}

/// The contents of a `KiteClient`.
pub struct ClientView {
    pub api_key: Seq<char>,
    pub access_token: Seq<char>,
}

impl View for KiteClient {
    type V = ClientView;

    closed spec fn view(&self) -> ClientView {
        ClientView { api_key: self.api_key@, access_token: self.access_token@ }
    }
}

/// The page at which a user logs in to the app with this API key.
pub open spec fn login_url_text(api_key: Seq<char>) -> Seq<char> {
    "https://kite.trade/connect/login?api_key="@ + api_key + "&v3"@
}

impl KiteClient {
    /// Create a new Kite Connect client.
    pub fn new(api_key: &str, access_token: &str) -> (c: Self)
        ensures
            c@.api_key == api_key@,
            c@.access_token == access_token@,
    {
        KiteClient { api_key: api_key.to_string(), access_token: access_token.to_string() }
    }

    /// Set a new access token (e.g., after refresh).
    pub fn set_access_token(&mut self, token: &str)
        ensures
            final(self)@.access_token == token@,
            final(self)@.api_key == old(self)@.api_key,
    {
        self.access_token = token.to_string();
    }

    /// Get the Kite login URL for browser authentication.
    pub fn login_url(&self) -> (url: String)
        ensures
            url@ == login_url_text(self@.api_key),
    {
        let mut url = "https://kite.trade/connect/login?api_key=".to_string();
        url.append(self.api_key.as_str());
        url.append("&v3");
        url
    }

    /// The value of the `Authorization` header of every request.
    pub fn authorization(&self) -> (header: String)
        ensures
            header@ == "token "@ + self@.api_key + ":"@ + self@.access_token,
    {
        let mut header = "token ".to_string();
        header.append(self.api_key.as_str());
        header.append(":");
        header.append(self.access_token.as_str());
        header
    }

    /// The checksum of a session request for `token` (a request token or an
    /// access token).
    pub fn session_checksum(&self, token: &str, api_secret: &str) -> (checksum: String)
        ensures
            checksum@ == checksum_text(self@.api_key, token@, api_secret@),
            checksum@.len() == 64,
    {
        let mut input = self.api_key.clone();
        input.append(token);
        input.append(api_secret);
        let digest = sha256_digest(input.as_str());
        proof {
            lemma_hex_text_len(digest@);
        }
        hex_encode(&digest)
    }

    /// The headers that every request carries: the API version and the
    /// authorization.
    pub fn request_headers(&self) -> (headers: Vec<(String, String)>)
        ensures
            form_view(headers@) == seq![
                ("X-Kite-Version"@, "3"@),
                ("Authorization"@, "token "@ + self@.api_key + ":"@ + self@.access_token),
            ],
    {
        proof {
            reveal_strlit("3");
        }
        let mut headers: Vec<(String, String)> = Vec::new();
        headers.push(("X-Kite-Version".to_string(), KITE_VERSION.to_string()));
        headers.push(("Authorization".to_string(), self.authorization()));
        assert(form_view(headers@) =~= seq![
            ("X-Kite-Version"@, "3"@),
            ("Authorization"@, "token "@ + self@.api_key + ":"@ + self@.access_token),
        ]);
        headers
    }

    /// The form that exchanges a request token for a session, fields in the
    /// order of their names.
    pub fn session_form(&self, request_token: &str, api_secret: &str) -> (form: Vec<
        (String, String),
    >)
        ensures
            form@.len() == 3,
            form@[0].0@ == "api_key"@ && form@[0].1@ == self@.api_key,
            form@[1].0@ == "checksum"@ && form@[1].1@ == checksum_text(
                self@.api_key,
                request_token@,
                api_secret@,
            ),
            form@[2].0@ == "request_token"@ && form@[2].1@ == request_token@,
    {
        let checksum = self.session_checksum(request_token, api_secret);
        let mut form: Vec<(String, String)> = Vec::new();
        form.push(("api_key".to_string(), self.api_key.clone()));
        form.push(("checksum".to_string(), checksum));
        form.push(("request_token".to_string(), request_token.to_string()));
        form
    }

    /// The form that renews an access token with a refresh token, fields in
    /// the order of their names.
    pub fn renew_form(&self, refresh_token: &str, api_secret: &str) -> (form: Vec<
        (String, String),
    >)
        ensures
            form@.len() == 3,
            form@[0].0@ == "api_key"@ && form@[0].1@ == self@.api_key,
            form@[1].0@ == "checksum"@ && form@[1].1@ == checksum_text(
                self@.api_key,
                refresh_token@,
                api_secret@,
            ),
            form@[2].0@ == "refresh_token"@ && form@[2].1@ == refresh_token@,
    {
        let checksum = self.session_checksum(refresh_token, api_secret);
        let mut form: Vec<(String, String)> = Vec::new();
        form.push(("api_key".to_string(), self.api_key.clone()));
        form.push(("checksum".to_string(), checksum));
        form.push(("refresh_token".to_string(), refresh_token.to_string()));
        form
    }
}

} // verus!
