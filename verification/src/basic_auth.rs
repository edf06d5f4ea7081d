//! Owner claims: who created a room, from where, and until when the claim
//! holds.

use vstd::prelude::*;

use crate::common::json::{
    json_get_number, json_get_text, json_is_flat, json_number_members, json_object,
    json_put_number, json_put_text, json_text_members,
};
use crate::common::nanoid::{id_text, NanoId};
use crate::common::utils::get_elapsed_milis;
use crate::common::Id;

verus! {

/// Lifetime of an owner claim, in milliseconds (two hours).
pub const EXPIRATION: u128 = 7_200_000;

/// Lifetime of a checked-auth ticket, in milliseconds.
pub const CHECKED_AUTH_EXPIRATION: u128 = 5_000;

/// Name of the cookie that carries the signed owner claim.
pub const OWNER_AUTH_COOKIE: &'static str = "owner_auth";

/// Name of the cookie that carries the checked-auth ticket.
pub const OWNER_AUTH_CHECKED_COOKIE: &'static str = "checked_auth";

/// The clock reading `span` after `now`, or the last one there is.
pub open spec fn deadline(now: u128, span: u128) -> u128 {
    if now + span > u128::MAX {
        u128::MAX
    } else {
        (now + span) as u128
    }
}

/// The clock reading `span` after `now`, or the last one there is.
pub fn deadline_after(now: u128, span: u128) -> (at: u128)
    ensures
        at == deadline(now, span),
{
    if now > u128::MAX - span {
        u128::MAX
    } else {
        now + span
    }
}

/// The mathematical content of an [`OwnerAuth`].
pub struct OwnerAuthView {
    pub username: Seq<char>,
    pub room_id: Seq<u8>,
    pub ip_addr: Seq<char>,
    pub user_agent: Seq<char>,
    pub sub: Seq<char>,
    pub company: Seq<char>,
    pub exp: u128,
}

impl OwnerAuthView {
    /// The claim has not expired when the clock reads `now` and is bound to
    /// the given address and user agent.
    pub open spec fn is_valid(self, ip_addr: Seq<char>, user_agent: Seq<char>, now: u128) -> bool {
        &&& now <= self.exp
        &&& self.ip_addr == ip_addr
        &&& self.user_agent == user_agent
    }

    /// The claim is valid and names the given room.
    pub open spec fn is_valid_room_id(
        self,
        ip_addr: Seq<char>,
        user_agent: Seq<char>,
        room_id: Seq<u8>,
        now: u128,
    ) -> bool {
        self.is_valid(ip_addr, user_agent, now) && self.room_id == room_id
    }
}

/// The claim of the connection that created a room. The address is kept in
/// its textual form.
pub struct OwnerAuth {
    pub username: String,
    pub room_id: Id,
    pub ip_addr: String,
    pub user_agent: String,
    pub(crate) sub: String,
    pub(crate) company: String,
    pub exp: u128,
}

impl View for OwnerAuth {
    type V = OwnerAuthView;

    open(crate) spec fn view(&self) -> OwnerAuthView {
        OwnerAuthView {
            username: self.username@,
            room_id: self.room_id@,
            ip_addr: self.ip_addr@,
            user_agent: self.user_agent@,
            sub: self.sub@,
            company: self.company@,
            exp: self.exp,
        }
    }
}

impl OwnerAuth {
    /// A claim of `username` on `room_id`, bound to an address and a user
    /// agent, that holds until the clock reads `exp`.
    pub fn new(username: String, room_id: Id, ip_addr: String, user_agent: String, exp: u128) -> (auth:
        OwnerAuth)
        ensures
            auth@ == (OwnerAuthView {
                username: username@,
                room_id: room_id@,
                ip_addr: ip_addr@,
                user_agent: user_agent@,
                sub: "sturdy@spoon.com"@,
                company: "STURDY_SPOON"@,
                exp,
            }),
    {
        OwnerAuth {
            username,
            room_id,
            ip_addr,
            user_agent,
            sub: "sturdy@spoon.com".to_owned(),
            company: "STURDY_SPOON".to_owned(),
            exp,
        }
    }

    /// The subject the claim was issued for.
    pub fn sub(&self) -> (sub: String)
        ensures
            sub@ == self@.sub,
    {
        self.sub.clone()
    }

    /// The issuer of the claim.
    pub fn company(&self) -> (company: String)
        ensures
            company@ == self@.company,
    {
        self.company.clone()
    }

    /// Whether the claim holds for a request from `ip_addr` with
    /// `user_agent` when the clock reads `now`.
    pub fn is_valid_at(&self, ip_addr: &String, user_agent: &String, now: u128) -> (valid: bool)
        ensures
            valid == self@.is_valid(ip_addr@, user_agent@, now),
    {
        if now > self.exp {
            return false;
        }
        self.ip_addr == *ip_addr && self.user_agent == *user_agent
    }

    /// Whether the claim holds for a request from `ip_addr` with
    /// `user_agent` at the current clock reading.
    pub fn is_valid(&self, ip_addr: &String, user_agent: &String) -> (valid: bool)
        ensures
            exists|now: u128| valid == #[trigger] self@.is_valid(ip_addr@, user_agent@, now),
    {
        let now: u128 = get_elapsed_milis();
        self.is_valid_at(ip_addr, user_agent, now)
    }

    /// Whether the claim holds for such a request and names `room_id`, when
    /// the clock reads `now`.
    pub fn is_valid_room_id_at(
        &self,
        ip_addr: &String,
        user_agent: &String,
        room_id: &Id,
        now: u128,
    ) -> (valid: bool)
        ensures
            valid == self@.is_valid_room_id(ip_addr@, user_agent@, room_id@, now),
    {
        self.is_valid_at(ip_addr, user_agent, now) && self.room_id.same(room_id)
    }

    /// Whether the claim holds for such a request and names `room_id`, at
    /// the current clock reading.
    pub fn is_valid_room_id(&self, ip_addr: &String, user_agent: &String, room_id: &Id) -> (valid:
        bool)
        ensures
            exists|now: u128|
                valid == #[trigger] self@.is_valid_room_id(ip_addr@, user_agent@, room_id@, now),
    {
        let now: u128 = get_elapsed_milis();
        self.is_valid_room_id_at(ip_addr, user_agent, room_id, now)
    }
}

/// The secret that owner tokens are signed with.
pub struct Keys {
    secret: Vec<u8>,
}

impl View for Keys {
    type V = Seq<u8>;

    closed spec fn view(&self) -> Seq<u8> {
        self.secret@
    }
}

impl Keys {
    pub fn new(secret: &[u8]) -> (keys: Keys)
        ensures
            keys@ == secret@,
    {
        Keys { secret: vstd::slice::slice_to_vec(secret) }
    }
}

/// A token that does not verify, does not carry an owner claim, or carries
/// one that has expired.
#[derive(Clone, Copy, Debug, PartialEq, Eq, Structural)]
pub struct Invalid;

/// The token that `jsonwebtoken` makes of a JSON object that has the given
/// string and integer members and no others, signed with HMAC-SHA256 under
/// `secret`, or nothing where it makes none.
pub uninterp spec fn jwt_token(
    texts: Map<Seq<char>, Seq<char>>,
    numbers: Map<Seq<char>, u64>,
    secret: Seq<u8>,
) -> Option<Seq<char>>;

/// Signs a JSON object whose members are all strings or unsigned integers
/// as a token, through `jsonwebtoken::encode` with the default header and a
/// key from `jsonwebtoken::EncodingKey::from_secret`. The token depends on
/// the members of the object and on the secret alone.
#[verifier::external_body]
fn jwt_sign(claims: &serde_json::Map<String, serde_json::Value>, secret: &[u8]) -> (token: Option<
    String,
>)
    requires
        json_is_flat(*claims),
    ensures
        token is Some <==> jwt_token(
            json_text_members(*claims),
            json_number_members(*claims),
            secret@,
        ) is Some,
        token matches Some(text) ==> Some(text@) == jwt_token(
            json_text_members(*claims),
            json_number_members(*claims),
            secret@,
        ),
{
    let key = jsonwebtoken::EncodingKey::from_secret(secret);
    jsonwebtoken::encode(&jsonwebtoken::Header::default(), claims, &key).ok()
}

/// The string and integer members of the JSON object that a token carries,
/// for a token that `jsonwebtoken` accepts under `secret` with HMAC-SHA256
/// when it is told not to judge the expiry; nothing for any other token.
pub uninterp spec fn jwt_payload(token: Seq<char>, secret: Seq<u8>) -> Option<
    (Map<Seq<char>, Seq<char>>, Map<Seq<char>, u64>),
>;

/// The JSON object that a token carries, through `jsonwebtoken::decode`
/// with a key from `jsonwebtoken::DecodingKey::from_secret` and the default
/// validation in which `validate_exp` is switched off. The default
/// validation accepts HMAC-SHA256 alone, checks the signature and asks for
/// an `exp` member; with `validate_exp` off it consults nothing but the
/// token and the key, so what comes back depends on the token and the
/// secret alone. `jsonwebtoken` still reads the clock on the way and gives
/// up on a reading before 1970: on a machine whose clock stands there this
/// call panics.
#[verifier::external_body]
fn jwt_verify(token: &str, secret: &[u8]) -> (claims: Option<
    serde_json::Map<String, serde_json::Value>,
>)
    ensures
        claims is Some <==> jwt_payload(token@, secret@) is Some,
        claims matches Some(object) ==> jwt_payload(token@, secret@) == Some(
            (json_text_members(object), json_number_members(object)),
        ),
{
    let key = jsonwebtoken::DecodingKey::from_secret(secret);
    let mut validation = jsonwebtoken::Validation::default();
    validation.validate_exp = false;
    jsonwebtoken::decode::<serde_json::Map<String, serde_json::Value>>(token, &key, &validation)
        .ok().map(|data| data.claims)
}

impl OwnerAuthView {
    /// The string members of the JSON object that stands for the claim.
    pub open spec fn text_members(self) -> Map<Seq<char>, Seq<char>> {
        Map::<Seq<char>, Seq<char>>::empty().insert("username"@, self.username).insert(
            "room_id"@,
            id_text(self.room_id),
        ).insert("ip_addr"@, self.ip_addr).insert("user_agent"@, self.user_agent).insert(
            "sub"@,
            self.sub,
        ).insert("company"@, self.company)
    }

    /// The integer members of the JSON object that stands for the claim.
    pub open spec fn number_members(self) -> Map<Seq<char>, u64> {
        Map::<Seq<char>, u64>::empty().insert("exp"@, self.exp as u64)
    }
}

/// The claim that a JSON object with the given members stands for, if it
/// stands for one: it must have the string members `username`, `room_id`,
/// `ip_addr`, `user_agent`, `sub` and `company` and the integer member
/// `exp`, and `room_id` must be the textual form of an identifier.
pub open spec fn claim_of(texts: Map<Seq<char>, Seq<char>>, numbers: Map<Seq<char>, u64>) -> Option<
    OwnerAuthView,
> {
    if texts.contains_key("username"@) && texts.contains_key("room_id"@) && texts.contains_key(
        "ip_addr"@,
    ) && texts.contains_key("user_agent"@) && texts.contains_key("sub"@) && texts.contains_key(
        "company"@,
    ) && numbers.contains_key("exp"@) && vstd::utf8::encode_utf8(texts["room_id"@]).len() == 16 {
        Some(
            OwnerAuthView {
                username: texts["username"@],
                room_id: vstd::utf8::encode_utf8(texts["room_id"@]),
                ip_addr: texts["ip_addr"@],
                user_agent: texts["user_agent"@],
                sub: texts["sub"@],
                company: texts["company"@],
                exp: numbers["exp"@] as u128,
            },
        )
    } else {
        None
    }
}

/// The owner claim that a token stands for under `secret` when the clock
/// reads `now`, if it stands for one: the token must pass the check
/// against the secret, the object it carries must stand for a claim, and
/// that claim must not have expired, that is, `now` must not be later than
/// its expiry.
pub open spec fn token_claim(token: Seq<char>, secret: Seq<u8>, now: u128) -> Option<
    OwnerAuthView,
> {
    match jwt_payload(token, secret) {
        None => None,
        Some((texts, numbers)) => match claim_of(texts, numbers) {
            None => None,
            Some(claim) => if now > claim.exp {
                None
            } else {
                Some(claim)
            },
        },
    }
}

/// The names of the members of a claim differ from one another.
proof fn lemma_member_names_differ()
    ensures
        "username"@.len() == 8,
        "room_id"@.len() == 7,
        "ip_addr"@.len() == 7,
        "user_agent"@.len() == 10,
        "sub"@.len() == 3,
        "company"@.len() == 7,
        "exp"@.len() == 3,
        "room_id"@[0] == 'r',
        "ip_addr"@[0] == 'i',
        "company"@[0] == 'c',
        "sub"@[0] == 's',
        "exp"@[0] == 'e',
{
    reveal_strlit("username");
    reveal_strlit("room_id");
    reveal_strlit("ip_addr");
    reveal_strlit("user_agent");
    reveal_strlit("sub");
    reveal_strlit("company");
    reveal_strlit("exp");
}

impl OwnerAuth {
    /// The JSON object that stands for the claim, or nothing where the
    /// expiry does not fit an unsigned 64-bit integer.
    fn to_claims(&self) -> (claims: Option<serde_json::Map<String, serde_json::Value>>)
        ensures
            claims is Some <==> self@.exp <= u64::MAX,
            claims matches Some(object) ==> json_text_members(object) == self@.text_members()
                && json_number_members(object) == self@.number_members() && json_is_flat(object),
    {
        if self.exp > u64::MAX as u128 {
            return None;
        }
        let room_id = self.room_id.to_string();
        let mut object = json_object();
        json_put_text(&mut object, "username", self.username.as_str());
        json_put_text(&mut object, "room_id", room_id.as_str());
        json_put_text(&mut object, "ip_addr", self.ip_addr.as_str());
        json_put_text(&mut object, "user_agent", self.user_agent.as_str());
        json_put_text(&mut object, "sub", self.sub.as_str());
        json_put_text(&mut object, "company", self.company.as_str());
        json_put_number(&mut object, "exp", self.exp as u64);
        proof {
            lemma_member_names_differ();
        }
        Some(object)
    }

    /// The claim that a JSON object stands for, if it stands for one.
    fn from_claims(object: &serde_json::Map<String, serde_json::Value>) -> (auth: Option<OwnerAuth>)
        ensures
            match auth {
                Some(found) => claim_of(json_text_members(*object), json_number_members(*object))
                    == Some(found@),
                None => claim_of(json_text_members(*object), json_number_members(*object)) is None,
            },
    {
        let username = json_get_text(object, "username")?;
        let room_text = json_get_text(object, "room_id")?;
        let ip_addr = json_get_text(object, "ip_addr")?;
        let user_agent = json_get_text(object, "user_agent")?;
        let sub = json_get_text(object, "sub")?;
        let company = json_get_text(object, "company")?;
        let exp = json_get_number(object, "exp")?;
        let room_id = match NanoId::from_str(room_text.as_str()) {
            Err(_) => {
                return None;
            },
            Ok(id) => id,
        };
        Some(OwnerAuth { username, room_id, ip_addr, user_agent, sub, company, exp: exp as u128 })
    }

    /// Signs the claim as a token. There is no token for a claim whose
    /// expiry does not fit an unsigned 64-bit integer.
    pub fn encode(&self, keys: &Keys) -> (token: Option<String>)
        ensures
            self@.exp > u64::MAX ==> token is None,
            token matches Some(text) ==> Some(text@) == jwt_token(
                self@.text_members(),
                self@.number_members(),
                keys@,
            ),
            self@.exp <= u64::MAX && jwt_token(self@.text_members(), self@.number_members(), keys@)
                is Some ==> token is Some,
    {
        match self.to_claims() {
            None => None,
            Some(object) => jwt_sign(&object, keys.secret.as_slice()),
        }
    }

    /// What verifying a token comes to once the token was checked against
    /// the secret: `claims` is the object that the token carries, if the
    /// check passed. The claim is accepted if the object stands for one
    /// that has not expired when the clock reads `now`.
    pub fn accept_claims(
        claims: Option<serde_json::Map<String, serde_json::Value>>,
        now: u128,
    ) -> (auth: Result<OwnerAuth, Invalid>)
        ensures
            match auth {
                Ok(found) => claims matches Some(object) && claim_of(
                    json_text_members(object),
                    json_number_members(object),
                ) == Some(found@) && now <= found@.exp,
                Err(_) => match claims {
                    None => true,
                    Some(object) => match claim_of(
                        json_text_members(object),
                        json_number_members(object),
                    ) {
                        None => true,
                        Some(found) => now > found.exp,
                    },
                },
            },
    {
        let object = match claims {
            None => {
                return Err(Invalid);
            },
            Some(object) => object,
        };
        match OwnerAuth::from_claims(&object) {
            None => Err(Invalid),
            Some(found) => if now > found.exp {
                Err(Invalid)
            } else {
                Ok(found)
            },
        }
    }

    /// Verifies a token when the clock reads `now`: the claim comes back if,
    /// and only if, the token passes the check against the secret, carries
    /// an owner claim, and that claim has not expired at `now`. Every other
    /// token is invalid.
    pub fn from_token_at(token: &str, keys: &Keys, now: u128) -> (auth: Result<OwnerAuth, Invalid>)
        ensures
            token_claim(token@, keys@, now) == match auth {
                Ok(found) => Some(found@),
                Err(_) => None,
            },
    {
        OwnerAuth::accept_claims(jwt_verify(token, keys.secret.as_slice()), now)
    }

    /// Verifies a token at the current clock reading: the claim comes back
    /// if, and only if, the token passes the check against the secret,
    /// carries an owner claim, and that claim has not expired at the time
    /// that was read.
    pub fn from_token(token: &str, keys: &Keys) -> (auth: Result<OwnerAuth, Invalid>)
        ensures
            exists|now: u128| #[trigger]
                token_claim(token@, keys@, now) == match auth {
                    Ok(found) => Some(found@),
                    Err(_) => None,
                },
    {
        let now: u128 = get_elapsed_milis();
        OwnerAuth::from_token_at(token, keys, now)
    }
}

/// A claim that has expired holds for no request, and a claim that holds at
/// some time held at every earlier time.
pub proof fn lemma_claim_expires(
    auth: OwnerAuthView,
    ip_addr: Seq<char>,
    user_agent: Seq<char>,
    earlier: u128,
    later: u128,
)
    requires
        earlier <= later,
    ensures
        later > auth.exp ==> !auth.is_valid(ip_addr, user_agent, later),
        auth.is_valid(ip_addr, user_agent, later) ==> auth.is_valid(ip_addr, user_agent, earlier),
{
}

} // verus!
