//! A member's own settings: password, profile, avatar, e-mail address and
//! second factor.
use vstd::prelude::*;
use base64::Engine;
use crate::labels::Labels;
use crate::text::{
    chars_of, lemma_word_run_end, matches_at, occurs_at, same_text, starts_with, trim, trim_spec,
    regex_word, word_end_from, word_run_end,
};
use vstd::string::StrSliceExecFns;
use vstd::string::StringSliceAdditionalSpecFns;

verus! {

broadcast use vstd::string::group_string_axioms;

/// A password change.
pub struct ChangePasswordForm {
    pub old_password: String,
    pub new_password: String,
    pub confirm_password: String,
}

/// The two entries of a new password agree.
pub fn passwords_match(password: &str, confirm: &str) -> (b: bool)
    ensures
        b == (password@ == confirm@),
{
    same_text(password, confirm)
}

/// Profile fields as the settings form submits them.
pub struct UserCenterUpdateForm {
    pub bio: Option<String>,
    pub address: Option<String>,
    pub timezone: Option<String>,
    pub language: Option<String>,
    pub public_email: Option<String>,
}

/// Profile fields as stored.
pub struct ProfileUpdate {
    pub bio: String,
    pub address: String,
    pub timezone: String,
    pub language: String,
    pub public_email: bool,
}

/// The text of an optional field, or `default` when it is missing.
pub open spec fn or_default(s: Option<String>, default: Seq<char>) -> Seq<char> {
    match s {
        Some(v) => v@,
        None => default,
    }
}

fn take_or(s: Option<String>, default: &str) -> (r: String)
    ensures
        r@ == or_default(s, default@),
{
    match s {
        Some(v) => v,
        None => String::from_str(default),
    }
}

/// The stored profile: missing text empty, time zone `UTC` and language
/// `en_US` by default, and the address public when the box was ticked.
pub fn profile_update(form: UserCenterUpdateForm) -> (r: ProfileUpdate)
    ensures
        r.bio@ == or_default(form.bio, Seq::empty()),
        r.address@ == or_default(form.address, Seq::empty()),
        r.timezone@ == or_default(form.timezone, "UTC"@),
        r.language@ == or_default(form.language, "en_US"@),
        r.public_email == form.public_email is Some,
{
    proof {
        reveal_strlit("");
    }
    let public_email = form.public_email.is_some();
    ProfileUpdate {
        bio: take_or(form.bio, ""),
        address: take_or(form.address, ""),
        timezone: take_or(form.timezone, "UTC"),
        language: take_or(form.language, "en_US"),
        public_email,
    }
}

/// The avatar query: a time stamp, present when the page knows the avatar's
/// version.
pub struct AvatarTimestampQuery {
    pub t: Option<i64>,
}

/// How long an avatar may be cached: a day when asked for by version, a
/// minute otherwise.
pub fn avatar_cache_control(t: Option<i64>) -> (r: &'static str)
    ensures
        r@ == (if (match t {
            Some(v) => v,
            None => 0,
        }) > 0 {
            "public, max-age=86400"@
        } else {
            "public, max-age=60"@
        }),
{
    let v = match t {
        Some(v) => v,
        None => 0,
    };
    if v > 0 {
        "public, max-age=86400"
    } else {
        "public, max-age=60"
    }
}

/// The largest avatar upload, in bytes.
pub const AVATAR_MAX_BYTES: usize = 2097152;

/// Why an avatar upload is refused.
#[derive(PartialEq, Eq, Structural, Debug, Clone, Copy)]
pub enum AvatarRefusal {
    /// More than 2 MiB.
    TooLarge,
    /// No file was chosen.
    Empty,
    /// The image detector labels it hentai or porn.
    Unsafe,
}

/// Whether an upload of `len` bytes is looked at.
pub fn check_avatar_size(len: usize) -> (r: Result<(), AvatarRefusal>)
    ensures
        r == (if len > AVATAR_MAX_BYTES {
            Err(AvatarRefusal::TooLarge)
        } else if len == 0 {
            Err(AvatarRefusal::Empty)
        } else {
            Ok(())
        }),
{
    if len > AVATAR_MAX_BYTES {
        Err(AvatarRefusal::TooLarge)
    } else if len == 0 {
        Err(AvatarRefusal::Empty)
    } else {
        Ok(())
    }
}

/// Whether the detector's labels let an image be an avatar: neither hentai
/// nor porn.
pub fn check_avatar_labels(labels: &Labels) -> (r: Result<(), AvatarRefusal>)
    ensures
        r == (if labels.0 & 2 != 0 || labels.0 & 8 != 0 {
            Err(AvatarRefusal::Unsafe)
        } else {
            Ok(())
        }),
{
    if labels.is_hentai() || labels.is_porn() {
        Err(AvatarRefusal::Unsafe)
    } else {
        Ok(())
    }
}

/// A new e-mail address.
pub struct ChangeEmailForm {
    pub new_email: String,
}

/// The code sent to a new e-mail address.
pub struct ChangeEmailVerifyForm {
    pub email: String,
    pub code: String,
}

/// The body of the mail that carries the code.
pub struct EmailVerificationTemplate {
    pub code: String,
}

/// An address was typed: it is not blank.
pub fn email_given(email: &str) -> (b: bool)
    ensures
        b == (trim_spec(email@).len() > 0),
{
    !trim(email).is_empty()
}

/// The key under which the code for a new address is kept.
pub fn new_email_token_key(email: &str) -> (r: String)
    ensures
        r@ == "new_email#"@ + email@,
{
    let mut s = String::from_str("new_email#");
    s.append(email);
    s
}

/// The key under which the registration code for an address is kept.
pub fn register_token_key(email: &str) -> (r: String)
    ensures
        r@ == "register#"@ + email@,
{
    let mut s = String::from_str("register#");
    s.append(email);
    s
}

/// Whether the member has checked in today (days since the Unix epoch).
pub fn checked_in_today(last_checkin: Option<i64>, today: i64) -> (b: bool)
    ensures
        b == (last_checkin == Some(today)),
{
    match last_checkin {
        Some(d) => d == today,
        None => false,
    }
}

/// A change to the second factor.
pub struct TotpSettingsForm {
    pub code: String,
    pub secret: Option<String>,
    pub action: String,
}

/// What a second-factor request leads to.
#[derive(PartialEq, Eq, Structural, Debug, Clone, Copy)]
pub enum TotpStep {
    /// Check the code against the submitted secret, then store it.
    VerifyAndBind,
    /// Check the code against the stored secret, then remove it.
    VerifyAndUnbind,
    /// A second factor is set already.
    AlreadyBound,
    /// No second factor is set.
    NotBound,
    /// Binding needs a secret.
    MissingSecret,
    /// The action is neither `bind` nor `unbind`.
    UnknownAction,
}

/// The step for a second-factor request, given whether one is set.
pub fn totp_step(form: &TotpSettingsForm, bound: bool) -> (r: TotpStep)
    ensures
        r == (if form.action@ == "bind"@ {
            if bound {
                TotpStep::AlreadyBound
            } else if form.secret is None {
                TotpStep::MissingSecret
            } else {
                TotpStep::VerifyAndBind
            }
        } else if form.action@ == "unbind"@ {
            if !bound {
                TotpStep::NotBound
            } else {
                TotpStep::VerifyAndUnbind
            }
        } else {
            TotpStep::UnknownAction
        }),
{
    if same_text(form.action.as_str(), "bind") {
        if bound {
            TotpStep::AlreadyBound
        } else if form.secret.is_none() {
            TotpStep::MissingSecret
        } else {
            TotpStep::VerifyAndBind
        }
    } else if same_text(form.action.as_str(), "unbind") {
        if !bound {
            TotpStep::NotBound
        } else {
            TotpStep::VerifyAndUnbind
        }
    } else {
        TotpStep::UnknownAction
    }
}

/// A stored second-factor secret counts only when it is not empty.
pub fn totp_secret_set(secret: Option<&str>) -> (b: bool)
    ensures
        b == (secret matches Some(s) && s@.len() > 0),
{
    match secret {
        Some(s) => !s.is_empty(),
        None => false,
    }
}

/// What begins an image data URL.
pub open spec fn data_url_head() -> Seq<char> {
    "data:image/"@
}

/// What stands between the image type and the payload.
pub open spec fn base64_marker() -> Seq<char> {
    ";base64,"@
}

/// `s` holds no line break.
pub open spec fn no_line_break(s: Seq<char>) -> bool {
    forall|k: int| 0 <= k < s.len() ==> s[k] != '\n'
}

/// The parts of a data URL that `^data:image/(\w+);base64,(.+)$` captures:
/// the image type (a run of word characters) and the payload (at least one
/// character, up to the end, with no line break).  Since `;` is no word
/// character, the type is the whole run of word characters after the head.
pub open spec fn data_url_parts(s: Seq<char>) -> Option<(Seq<char>, Seq<char>)> {
    let e = word_run_end(s, 11);
    if starts_with(s, data_url_head()) && e > 11 && occurs_at(s, base64_marker(), e) && e + 8
        < s.len() && no_line_break(s.subrange(e + 8, s.len() as int)) {
        Some((s.subrange(11, e), s.subrange(e + 8, s.len() as int)))
    } else {
        None
    }
}

/// What a data URL is split into, for every text: where it is split, the
/// text is `data:image/`, the image type, `;base64,` and the payload, in
/// that order; the type is a non-empty run of word characters and the
/// payload is non-empty and holds no line break.  Any text of that form is
/// split that way, `;` being no word character.
pub proof fn data_url_law(s: Seq<char>, ty: Seq<char>, payload: Seq<char>)
    ensures
        data_url_parts(s) matches Some((a, b)) ==> s == data_url_head() + a + base64_marker() + b
            && a.len() > 0 && (forall|j: int| 0 <= j < a.len() ==> regex_word(#[trigger] a[j]))
            && b.len() > 0 && no_line_break(b),
        (ty.len() > 0 && (forall|j: int| 0 <= j < ty.len() ==> regex_word(#[trigger] ty[j]))
            && !regex_word(';') && payload.len() > 0 && no_line_break(payload) && s == data_url_head() + ty
            + base64_marker() + payload) ==> data_url_parts(s) == Some((ty, payload)),
{
    reveal_strlit("data:image/");
    reveal_strlit(";base64,");
    if 11 <= s.len() {
        lemma_word_run_end(s, 11);
    }
    if data_url_parts(s) is Some {
        let e = word_run_end(s, 11);
        assert(s =~= s.take(11) + s.subrange(11, e) + s.subrange(e, e + 8) + s.subrange(
            e + 8,
            s.len() as int,
        ));
        assert(s.subrange(e, e + 8) == base64_marker());
        assert forall|j: int| 0 <= j < e - 11 implies regex_word(#[trigger] s.subrange(11, e)[j]) by {
            assert(s.subrange(11, e)[j] == s[11 + j]);
        }
    }
    if ty.len() > 0 && (forall|j: int| 0 <= j < ty.len() ==> regex_word(#[trigger] ty[j]))
        && !regex_word(';') && payload.len() > 0 && no_line_break(payload) && s == data_url_head() + ty + base64_marker()
        + payload {
        let e: int = 11 + ty.len() as int;
        assert(s[e] == ';');
        assert forall|j: int| 11 <= j < e implies regex_word(s[j]) by {
            assert(s[j] == ty[j - 11]);
        }
        lemma_word_run_through(s, 11, e);
        assert(s.take(11) =~= data_url_head());
        assert(s.subrange(e, e + 8) =~= base64_marker());
        assert(s.subrange(11, e) =~= ty);
        assert(s.subrange(e + 8, s.len() as int) =~= payload);
    }
}

/// A run of word characters from `j` up to `e`, followed by a character that
/// is not one, ends at `e`.
proof fn lemma_word_run_through(s: Seq<char>, j: int, e: int)
    requires
        0 <= j <= e < s.len(),
        forall|k: int| j <= k < e ==> regex_word(s[k]),
        !regex_word(s[e]),
    ensures
        word_run_end(s, j) == e,
    decreases e - j,
{
    if j < e {
        lemma_word_run_through(s, j + 1, e);
    }
}

/// What the standard base64 engine decodes from `input`, or `None` where it
/// is not valid base64.
pub uninterp spec fn base64_decoded(input: Seq<u8>) -> Option<Seq<u8>>;

/// The two groups of `^data:image/(\w+);base64,(.+)$` in `s`.
fn data_url_captures(s: &str) -> (r: Option<(String, String)>)
    ensures
        match r {
            Some((a, b)) => data_url_parts(s@) == Some((a@, b@)),
            None => data_url_parts(s@) is None,
        },
{
    proof {
        reveal_strlit("data:image/");
        reveal_strlit(";base64,");
    }
    let v = chars_of(s);
    let n = v.len();
    let head = chars_of("data:image/");
    if n < 11 || !matches_at(&v, &head, 0) {
        return None;
    }
    assert(v@.subrange(0, 11) =~= v@.take(11));
    let e = word_end_from(&v, 11);
    proof {
        lemma_word_run_end(v@, 11);
    }
    if e == 11 {
        return None;
    }
    let marker = chars_of(";base64,");
    if !matches_at(&v, &marker, e) {
        return None;
    }
    if e + 8 >= n {
        return None;
    }
    let start = e + 8;
    let mut k = start;
    while k < n
        invariant
            start <= k <= n,
            n == v@.len(),
            forall|m: int| start <= m < k ==> v@[m] != '\n',
            data_url_parts(s@) is Some <==> no_line_break(v@.subrange(start as int, n as int)),
        decreases n - k,
    {
        if v[k] == '\n' {
            assert(v@.subrange(start as int, n as int)[k - start] == '\n');
            return None;
        }
        k = k + 1;
    }
    assert(no_line_break(v@.subrange(start as int, n as int)));
    Some((String::from_str(s.substring_char(11, e)), String::from_str(s.substring_char(start, n))))
}

/// `base64::engine::general_purpose::STANDARD.decode(input)`, with the error
/// as `None`.
#[verifier::external_body]
fn base64_decode(input: &str) -> (r: Option<Vec<u8>>)
    ensures
        match r {
            Some(v) => base64_decoded(input.spec_bytes()) == Some(v@),
            None => base64_decoded(input.spec_bytes()) is None,
        },
{
    base64::engine::general_purpose::STANDARD.decode(input).ok()
}

/// The image in a data URL: its MIME type (`image/` and the type the URL
/// names) and its decoded bytes; `None` where the text is no image data URL
/// or its payload is no valid base64.
pub fn image_from_data_url(data_url: &str) -> (r: Option<(String, Vec<u8>)>)
    ensures
        match data_url_parts(data_url@) {
            Some((ext, payload)) => match base64_decoded(vstd::utf8::encode_utf8(payload)) {
                Some(bytes) => r matches Some((m, b)) && m@ == "image/"@ + ext && b@ == bytes,
                None => r is None,
            },
            None => r is None,
        },
{
    match data_url_captures(data_url) {
        Some((ext, payload)) => match base64_decode(payload.as_str()) {
            Some(bytes) => {
                let mut mime = String::from_str("image/");
                mime.append(ext.as_str());
                Some((mime, bytes))
            },
            None => None,
        },
        None => None,
    }
}

} // verus!
