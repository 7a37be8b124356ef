//! Site configuration records and their defaults.
use vstd::prelude::*;
use crate::text::{has_prefix, same_text, starts_with};

verus! {

/// Basic information about the site.
pub struct Website {
    pub name: String,
    pub logo: String,
    pub nickname: String,
    pub domain: String,
    pub description: String,
    pub keyword: String,
    pub copyright: String,
    pub about: String,
}

impl Default for Website {
    /// The site is called "NodeCask" with the bundled logo; all else is empty.
    fn default() -> (r: Self)
        ensures
            r.name@ == "NodeCask"@,
            r.logo@ == "/public/logo.png"@,
            r.nickname@ == "NodeCask"@,
            r.domain@.len() == 0,
            r.description@.len() == 0,
            r.keyword@.len() == 0,
            r.copyright@.len() == 0,
            r.about@.len() == 0,
    {
        Website {
            name: String::from_str("NodeCask"),
            logo: String::from_str("/public/logo.png"),
            nickname: String::from_str("NodeCask"),
            domain: String::new(),
            description: String::new(),
            keyword: String::new(),
            copyright: String::new(),
            about: String::new(),
        }
    }
}

/// Page sizes for topic lists and for the comments of a topic.
pub struct VisitConfig {
    pub topics_per_page: u32,
    pub comments_per_page: u32,
}

impl Default for VisitConfig {
    /// 20 topics and 100 comments to a page.
    fn default() -> (r: Self)
        ensures
            r.topics_per_page == 20,
            r.comments_per_page == 100,
    {
        VisitConfig { topics_per_page: 20, comments_per_page: 100 }
    }
}

/// Rules for new accounts.
pub struct RegisterConfig {
    pub enable: bool,
    pub email_verify: bool,
    pub min_username: i64,
    pub max_username: i64,
    pub min_password_len: usize,
    pub terms: String,
    pub invite_code_required: bool,
    pub initial_score: i64,
    pub reserved_username: Vec<String>,
    pub reserved_prefix: Vec<String>,
    pub reserved_suffix: Vec<String>,
}

impl Default for RegisterConfig {
    /// Registration closed; names of 3 to 20 bytes, passwords of at least 6,
    /// no invitation needed, 100 initial credit, nothing reserved.
    fn default() -> (r: Self)
        ensures
            !r.enable,
            !r.email_verify,
            r.min_username == 3,
            r.max_username == 20,
            r.min_password_len == 6,
            r.terms@.len() == 0,
            !r.invite_code_required,
            r.initial_score == 100,
            r.reserved_username@.len() == 0,
            r.reserved_prefix@.len() == 0,
            r.reserved_suffix@.len() == 0,
    {
        RegisterConfig {
            enable: false,
            email_verify: false,
            min_username: 3,
            max_username: 20,
            min_password_len: 6,
            terms: String::new(),
            invite_code_required: false,
            initial_score: 100,
            reserved_username: Vec::new(),
            reserved_prefix: Vec::new(),
            reserved_suffix: Vec::new(),
        }
    }
}

/// Rules for topics and replies.
pub struct PostConfig {
    pub sensitive_words: Vec<String>,
    pub min_reg_age_secs: i64,
    pub min_title_length: i64,
    pub max_title_length: i64,
    pub min_content_length: i64,
    pub max_content_length: i64,
    pub min_reply_length: i64,
    pub max_reply_length: i64,
}

impl Default for PostConfig {
    /// One blocked phrase; titles of 3 to 100 characters, bodies of up to
    /// 1000, replies of 1 to 1000; no minimum account age.
    fn default() -> (r: Self)
        ensures
            r.sensitive_words@.len() == 1,
            r.sensitive_words@[0]@ == "来点色图"@,
            r.min_reg_age_secs == 0,
            r.min_title_length == 3,
            r.max_title_length == 100,
            r.min_content_length == 0,
            r.max_content_length == 1000,
            r.min_reply_length == 1,
            r.max_reply_length == 1000,
    {
        let mut words: Vec<String> = Vec::new();
        words.push(String::from_str("来点色图"));
        PostConfig {
            sensitive_words: words,
            min_reg_age_secs: 0,
            min_title_length: 3,
            max_title_length: 100,
            min_content_length: 0,
            max_content_length: 1000,
            min_reply_length: 1,
            max_reply_length: 1000,
        }
    }
}

/// Markup and styles inserted into every page.
pub struct InjectionConfig {
    pub style: String,
    pub style_compiled: String,
    pub html_head: String,
    pub html_body: String,
}

impl Default for InjectionConfig {
    /// Nothing is inserted.
    fn default() -> (r: Self)
        ensures
            r.style@.len() == 0,
            r.style_compiled@.len() == 0,
            r.html_head@.len() == 0,
            r.html_body@.len() == 0,
    {
        InjectionConfig {
            style: String::new(),
            style_compiled: String::new(),
            html_head: String::new(),
            html_body: String::new(),
        }
    }
}

/// Filter rules for links in posts, one per line.
pub struct LinkFilterConfig {
    pub rules: String,
}

impl Default for LinkFilterConfig {
    fn default() -> (r: Self)
        ensures
            r.rules@.len() == 0,
    {
        LinkFilterConfig { rules: String::new() }
    }
}

/// The script that computes login and check-in rewards.
pub struct UserLoginRewardsScript {
    pub script: String,
}

impl Default for UserLoginRewardsScript {
    fn default() -> (r: Self)
        ensures
            r.script@.len() == 0,
    {
        UserLoginRewardsScript { script: String::new() }
    }
}

/// Cloudflare Turnstile settings: which forms (hooks) show the challenge.
pub struct TurnstileConfig {
    pub enable: bool,
    pub site_key: String,
    pub secret_key: String,
    pub hooks: Vec<String>,
}

impl Default for TurnstileConfig {
    fn default() -> (r: Self)
        ensures
            !r.enable,
            r.site_key@.len() == 0,
            r.secret_key@.len() == 0,
            r.hooks@.len() == 0,
    {
        TurnstileConfig {
            enable: false,
            site_key: String::new(),
            secret_key: String::new(),
            hooks: Vec::new(),
        }
    }
}

/// The challenge applies to the form `hook`: it is enabled, both keys are
/// set, and `hook` is one of the configured hooks.
pub open spec fn turnstile_applies(cfg: TurnstileConfig, hook: Seq<char>) -> bool {
    &&& cfg.enable
    &&& cfg.site_key@.len() > 0
    &&& cfg.secret_key@.len() > 0
    &&& cfg.hooks@.len() > 0
    &&& exists|i: int| 0 <= i < cfg.hooks@.len() && cfg.hooks@[i]@ == hook
}

impl TurnstileConfig {
    /// The form name and the public site key when the challenge applies to
    /// the form `hook`, `None` otherwise.
    pub fn get_site_key(&self, hook: &str) -> (r: Option<(String, String)>)
        ensures
            r is Some <==> turnstile_applies(*self, hook@),
            r matches Some((h, k)) ==> h@ == hook@ && k@ == self.site_key@,
    {
        if !self.enable {
            return None;
        }
        if self.site_key.as_str().is_empty() || self.secret_key.as_str().is_empty() || self.hooks.len() == 0 {
            return None;
        }
        let mut i: usize = 0;
        let n = self.hooks.len();
        while i < n
            invariant
                n == self.hooks@.len(),
                self.enable,
                self.site_key@.len() > 0,
                self.secret_key@.len() > 0,
                n > 0,
                i <= n,
                forall|k: int| 0 <= k < i ==> self.hooks@[k]@ != hook@,
            decreases n - i,
        {
            if same_text(self.hooks[i].as_str(), hook) {
                assert(self.hooks@[i as int]@ == hook@);
                return Some((String::from_str(hook), self.site_key.clone()));
            }
            i = i + 1;
        }
        None
    }
}

/// Mail server settings and the per-address sending limits.
pub struct SmtpConfig {
    pub from_name: String,
    pub from_mail: String,
    pub hostname: String,
    pub port: u16,
    pub tls_implicit: bool,
    pub username: String,
    pub password: String,
    pub max_per_hour: i64,
    pub max_per_day: i64,
}

impl Default for SmtpConfig {
    /// Port 465 without implicit TLS, at most 10 mails an hour and 20 a day
    /// to one address; everything else empty.
    fn default() -> (r: Self)
        ensures
            r.from_name@.len() == 0,
            r.from_mail@.len() == 0,
            r.hostname@.len() == 0,
            r.port == 465,
            !r.tls_implicit,
            r.username@.len() == 0,
            r.password@.len() == 0,
            r.max_per_hour == 10,
            r.max_per_day == 20,
    {
        SmtpConfig {
            from_name: String::new(),
            from_mail: String::new(),
            hostname: String::new(),
            port: 465,
            tls_implicit: false,
            username: String::new(),
            password: String::new(),
            max_per_hour: 10,
            max_per_day: 20,
        }
    }
}

/// The sender of outgoing mail: a display name (absent when none is set)
/// and an address. As the mail daemon does, the address is the configured
/// `from_mail` only when that is empty, and the login user name otherwise.
pub open spec fn sender_address_spec(cfg: SmtpConfig) -> (Option<Seq<char>>, Seq<char>) {
    (
        if cfg.from_name@.len() == 0 {
            None
        } else {
            Some(cfg.from_name@)
        },
        if cfg.from_mail@.len() == 0 {
            cfg.from_mail@
        } else {
            cfg.username@
        },
    )
}

impl SmtpConfig {
    /// See [`sender_address_spec`].
    pub fn sender_address(&self) -> (r: (Option<String>, String))
        ensures
            (match r.0 {
                Some(n) => Some(n@),
                None => None,
            }) == sender_address_spec(*self).0,
            r.1@ == sender_address_spec(*self).1,
    {
        let name = if self.from_name.as_str().is_empty() {
            None
        } else {
            Some(self.from_name.clone())
        };
        let addr = if self.from_mail.as_str().is_empty() {
            self.from_mail.clone()
        } else {
            self.username.clone()
        };
        (name, addr)
    }
}

/// Sending limits for one address.
pub struct Limit {
    pub max_per_hour: i64,
    pub max_per_day: i64,
}

/// A limit of `max` mails is exceeded by `sent` mails (a limit of 0 or less
/// means no limit).
pub open spec fn over_limit(max: i64, sent: i64) -> bool {
    max > 0 && sent > max
}

impl Limit {
    /// Whether `sent` mails in the period exceed the limit `max`.
    pub fn exceeded(max: i64, sent: i64) -> (b: bool)
        ensures
            b == over_limit(max, sent),
    {
        max > 0 && sent > max
    }

    /// A mail may go out when neither the hourly nor the daily count exceeds
    /// its limit.
    pub fn allows(&self, sent_last_hour: i64, sent_last_day: i64) -> (b: bool)
        ensures
            b == (!over_limit(self.max_per_hour, sent_last_hour) && !over_limit(
                self.max_per_day,
                sent_last_day,
            )),
    {
        !Self::exceeded(self.max_per_hour, sent_last_hour) && !Self::exceeded(
            self.max_per_day,
            sent_last_day,
        )
    }
}

/// What happened to a queued mail.
#[derive(PartialEq, Eq, Structural, Debug, Clone, Copy)]
pub enum MailOutcome {
    /// No mail server is configured.
    NoServer,
    /// Counting earlier mails failed.
    CountFailed,
    /// The address has had too many mails.
    Limited,
    /// The mail went out.
    Sent,
    /// Connecting or sending failed.
    SendFailed,
}

/// The status recorded for a mail with the given outcome.
pub open spec fn mail_status_spec(o: MailOutcome) -> Seq<char> {
    match o {
        MailOutcome::NoServer => "drop"@,
        MailOutcome::CountFailed => "failed"@,
        MailOutcome::Limited => "limited"@,
        MailOutcome::Sent => "sent"@,
        MailOutcome::SendFailed => "failed"@,
    }
}

/// The status word stored in the mail queue for an outcome.
pub fn mail_status(o: MailOutcome) -> (r: &'static str)
    ensures
        r@ == mail_status_spec(o),
{
    match o {
        MailOutcome::NoServer => "drop",
        MailOutcome::CountFailed => "failed",
        MailOutcome::Limited => "limited",
        MailOutcome::Sent => "sent",
        MailOutcome::SendFailed => "failed",
    }
}

/// Site statistics.
#[derive(PartialEq, Eq, Structural, Debug, Clone, Copy)]
pub struct Overview {
    pub users: i64,
    pub topics: i64,
    pub comments: i64,
}

impl Default for Overview {
    fn default() -> (r: Self)
        ensures
            r == (Overview { users: 0, topics: 0, comments: 0 }),
    {
        Overview { users: 0, topics: 0, comments: 0 }
    }
}

/// Which part of the cached global configuration to load again.
#[derive(PartialEq, Eq, Structural, Debug, Clone, Copy)]
pub enum ReloadInstruct {
    Website,
    Links,
    Injection,
    Visit,
    Overview,
}

/// The daemon that must learn of a change to a stored setting.
#[derive(PartialEq, Eq, Structural, Debug, Clone, Copy)]
pub enum ReloadTarget {
    /// Part of the cached global configuration.
    Global(ReloadInstruct),
    /// The mail sender.
    Mail,
    /// The automatic moderator.
    Moderator,
    /// The link filter, with the stored rules.
    LinkFilter,
    /// The rewards calculator.
    Rewards,
}

/// The daemon to reload after the setting `name` is stored.
pub open spec fn reload_target_spec(name: Seq<char>) -> Option<ReloadTarget> {
    if name == "site_bottom_links"@ {
        Some(ReloadTarget::Global(ReloadInstruct::Links))
    } else if name == "site_info"@ {
        Some(ReloadTarget::Global(ReloadInstruct::Website))
    } else if name == "visit_config"@ {
        Some(ReloadTarget::Global(ReloadInstruct::Visit))
    } else if name == "smtp_config"@ {
        Some(ReloadTarget::Mail)
    } else if name == "llm_moderator"@ {
        Some(ReloadTarget::Moderator)
    } else if name == "link_filter"@ {
        Some(ReloadTarget::LinkFilter)
    } else if name == "login_rewards_script"@ {
        Some(ReloadTarget::Rewards)
    } else if name == "injection_config"@ {
        Some(ReloadTarget::Global(ReloadInstruct::Injection))
    } else {
        None
    }
}

/// See [`reload_target_spec`].
pub fn reload_target(name: &str) -> (r: Option<ReloadTarget>)
    ensures
        r == reload_target_spec(name@),
{
    if same_text(name, "site_bottom_links") {
        Some(ReloadTarget::Global(ReloadInstruct::Links))
    } else if same_text(name, "site_info") {
        Some(ReloadTarget::Global(ReloadInstruct::Website))
    } else if same_text(name, "visit_config") {
        Some(ReloadTarget::Global(ReloadInstruct::Visit))
    } else if same_text(name, "smtp_config") {
        Some(ReloadTarget::Mail)
    } else if same_text(name, "llm_moderator") {
        Some(ReloadTarget::Moderator)
    } else if same_text(name, "link_filter") {
        Some(ReloadTarget::LinkFilter)
    } else if same_text(name, "login_rewards_script") {
        Some(ReloadTarget::Rewards)
    } else if same_text(name, "injection_config") {
        Some(ReloadTarget::Global(ReloadInstruct::Injection))
    } else {
        None
    }
}

/// A link in the site footer.
pub struct Link {
    pub title: String,
    pub url: String,
    pub description: String,
    pub blank: bool,
}

/// A titled group of footer links.
pub struct LinkCollection {
    pub title: String,
    pub links: Vec<Link>,
}

/// The cached global configuration; `overview_loaded_at` is when the
/// statistics were read, in milliseconds of a monotonic clock.
pub struct GlobalConfig {
    pub website: Website,
    pub links: Vec<LinkCollection>,
    pub injection: InjectionConfig,
    pub visit: VisitConfig,
    pub overview: Overview,
    pub overview_loaded_at: u64,
}

/// The query of the settings page: which setting to read.
pub struct SysConfigQuery {
    pub name: String,
}

/// A freshly read part of the cached configuration.
pub enum ConfigUpdate {
    Website(Website),
    Links(Vec<LinkCollection>),
    Injection(InjectionConfig),
    Visit(VisitConfig),
    /// The statistics and when they were read.
    Overview(Overview, u64),
}

impl GlobalConfig {
    /// The configuration with one part replaced by its fresh value; every
    /// other part stays as it was.
    pub fn apply(self, update: ConfigUpdate) -> (r: Self)
        ensures
            r.website == (match update {
                ConfigUpdate::Website(w) => w,
                _ => self.website,
            }),
            r.links == (match update {
                ConfigUpdate::Links(l) => l,
                _ => self.links,
            }),
            r.injection == (match update {
                ConfigUpdate::Injection(i) => i,
                _ => self.injection,
            }),
            r.visit == (match update {
                ConfigUpdate::Visit(v) => v,
                _ => self.visit,
            }),
            r.overview == (match update {
                ConfigUpdate::Overview(o, _) => o,
                _ => self.overview,
            }),
            r.overview_loaded_at == (match update {
                ConfigUpdate::Overview(_, t) => t,
                _ => self.overview_loaded_at,
            }),
    {
        let mut c = self;
        match update {
            ConfigUpdate::Website(w) => c.website = w,
            ConfigUpdate::Links(l) => c.links = l,
            ConfigUpdate::Injection(i) => c.injection = i,
            ConfigUpdate::Visit(v) => c.visit = v,
            ConfigUpdate::Overview(o, t) => {
                c.overview = o;
                c.overview_loaded_at = t;
            },
        }
        c
    }
}

/// Why a form that asks for a human check is turned back.
#[derive(PartialEq, Eq, Structural, Debug, Clone, Copy)]
pub enum CaptchaRefusal {
    /// The check is on and the form carries no answer.
    Required,
    /// The check service rejected the answer.
    Failed,
}

/// The answer of a human check to send to the check service: none where the
/// check is off for the form, and a refusal where it is on but the form's
/// answer is missing or empty.
pub fn captcha_answer<'a>(check_on: bool, response: Option<&'a str>) -> (r: Result<
    Option<&'a str>,
    CaptchaRefusal,
>)
    ensures
        r == (if !check_on {
            Ok(None)
        } else {
            match response {
                Some(s) => if s@.len() > 0 {
                    Ok(Some(s))
                } else {
                    Err(CaptchaRefusal::Required)
                },
                None => Err(CaptchaRefusal::Required),
            }
        }),
{
    if !check_on {
        return Ok(None);
    }
    match response {
        Some(s) => {
            if s.is_empty() {
                Err(CaptchaRefusal::Required)
            } else {
                Ok(Some(s))
            }
        },
        None => Err(CaptchaRefusal::Required),
    }
}

/// What the check service's reply to a verification request means for the
/// form `action`: `None` where the request failed (a status outside
/// 200..=299); otherwise the answer passes exactly when the service says
/// `success` and names this same action.
pub fn turnstile_outcome(status: u16, success: bool, reply_action: Option<&str>, action: &str) -> (r:
    Option<bool>)
    ensures
        r == (if !(200 <= status <= 299) {
            None
        } else {
            Some(success && (reply_action matches Some(a) && a@ == action@))
        }),
{
    if status < 200 || status > 299 {
        return None;
    }
    let same_action = match reply_action {
        Some(a) => same_text(a, action),
        None => false,
    };
    Some(success && same_action)
}

/// A queued mail, by its id.
#[derive(PartialEq, Eq, Structural, Debug, Clone, Copy)]
pub struct Mail(pub i64);

/// The settings with `css` as the compiled style, or `None` where the style
/// did not compile.
pub fn with_compiled_style(config: InjectionConfig, css: Option<String>) -> (r: Option<InjectionConfig>)
    ensures
        match css {
            Some(c) => r matches Some(n) && n.style_compiled@ == c@ && n.style@ == config.style@
                && n.html_head@ == config.html_head@ && n.html_body@ == config.html_body@,
            None => r is None,
        },
{
    match css {
        Some(c) => {
            let mut n = config;
            n.style_compiled = c;
            Some(n)
        },
        None => None,
    }
}

/// Expired form codes are swept out now and then: whenever a new code begins
/// with `a`, about one time in sixteen.
pub fn sweeps_expired_codes(new_code: &str) -> (b: bool)
    ensures
        b == starts_with(new_code@, "a"@),
{
    has_prefix(new_code, "a")
}

/// A setting is looked up only under a non-empty name.
pub fn setting_name_valid(name: &str) -> (b: bool)
    ensures
        b == (name@.len() > 0),
{
    !name.is_empty()
}

} // verus!
