//! Mail: fetched over IMAP, sent over SMTP.
use vstd::prelude::*;
use vstd::string::StringExecFns;

use crate::error::{joined, CoreError};
use crate::text;
use crate::text::{
    copy_or_empty, decimal_string, find_char, from_chars, order_by_weight, str_eq,
    to_chars,
};
use crate::time;
use crate::time::Timestamp;
use crate::types::message;
use crate::types::{Channel, ChannelConfig, MessageContent};
use vstd::slice::slice_subrange;

verus! {

/// Where the servers of an account are.
#[derive(Debug)]
pub struct ImapSettings {
    pub host: String,
    pub port: u16,
    pub smtp_host: String,
    pub smtp_port: u16,
}

/// Settings as mathematical values.
#[verifier::ext_equal]
pub struct SettingsText {
    pub host: Seq<char>,
    pub port: u16,
    pub smtp_host: Seq<char>,
    pub smtp_port: u16,
}

impl View for ImapSettings {
    type V = SettingsText;

    open spec fn view(&self) -> SettingsText {
        SettingsText {
            host: self.host@,
            port: self.port,
            smtp_host: self.smtp_host@,
            smtp_port: self.smtp_port,
        }
    }
}

impl Default for ImapSettings {
    fn default() -> (r: ImapSettings)
        ensures
            r@ == settings_for("gmail.com"@),
    {
        ImapSettings {
            host: "imap.gmail.com".to_owned(),
            port: 993,
            smtp_host: "smtp.gmail.com".to_owned(),
            smtp_port: 587,
        }
    }
}

/// The domain of an address: what stands between its first and second at sign;
/// that of Gmail where there is none.
pub open spec fn domain_of(email: Seq<char>) -> Seq<char> {
    let k = text::first_index(email, '@');
    if k < email.len() {
        let rest = email.skip(k + 1);
        rest.take(text::first_index(rest, '@'))
    } else {
        "gmail.com"@
    }
}

/// The settings for a domain.
pub open spec fn settings_for(domain: Seq<char>) -> SettingsText {
    if domain == "gmail.com"@ || domain == "googlemail.com"@ {
        SettingsText {
            host: "imap.gmail.com"@,
            port: 993,
            smtp_host: "smtp.gmail.com"@,
            smtp_port: 587,
        }
    } else if domain == "outlook.com"@ || domain == "hotmail.com"@ || domain == "live.com"@ {
        SettingsText {
            host: "outlook.office365.com"@,
            port: 993,
            smtp_host: "smtp.office365.com"@,
            smtp_port: 587,
        }
    } else {
        SettingsText {
            host: "imap."@ + domain,
            port: 993,
            smtp_host: "smtp."@ + domain,
            smtp_port: 587,
        }
    }
}

/// Adapter for mail.
#[derive(Debug)]
pub struct EmailAdapter {
    pub imap_host: Option<String>,
    pub imap_port: u16,
    pub smtp_host: Option<String>,
    pub smtp_port: u16,
    pub username: Option<String>,
    pub password: Option<String>,
    pub connected: bool,
}

/// What is needed to fetch mail.
#[derive(Debug)]
pub struct FetchPlan {
    pub host: String,
    /// The host and port to connect to.
    pub address: String,
    pub username: String,
    pub password: String,
    /// Which mails are asked for.
    pub search_query: String,
}

/// What is needed to send a reply.
#[derive(Debug)]
pub struct ReplyPlan {
    pub smtp_host: String,
    pub smtp_port: u16,
    pub username: String,
    pub password: String,
    pub subject: String,
    pub text: String,
}

/// `e` is the connection error with this message.
pub open spec fn is_connection_error(e: CoreError, m: Seq<char>) -> bool {
    e matches CoreError::Connection(t) && t@ == m
}

/// The search for mails from a day on, or for all.
pub open spec fn search_text(since: Option<Timestamp>) -> Seq<char> {
    match since {
        Some(t) => "SINCE "@ + time::imap_date_text(t@.0 as i64, t@.1 as u32),
        None => "ALL"@,
    }
}

/// The user and password of credentials: what stands before and after the
/// first colon.
pub open spec fn credentials(s: Seq<char>) -> Option<(Seq<char>, Seq<char>)> {
    let k = text::first_index(s, ':');
    if k < s.len() {
        Some((s.take(k), s.skip(k + 1)))
    } else {
        None
    }
}

/// What is wrong with a text as a mailbox, in the words of `lettre`; nothing
/// where it is one.
pub uninterp spec fn mailbox_error(address: Seq<char>) -> Option<Seq<char>>;

/// `str::parse` of a text as a `lettre::message::Mailbox`, of which only the
/// error is kept, as `lettre::address::AddressError` prints it. Whether there is
/// one, and which, rests on the text alone.
#[verifier::external_body]
fn check_mailbox(address: &str) -> (r: Option<String>)
    ensures
        match r {
            Some(e) => mailbox_error(address@) == Some(e@),
            None => mailbox_error(address@) is None,
        },
{
    address.parse::<lettre::message::Mailbox>().err().map(|e| e.to_string())
}

/// `r` is what comes of the addresses of a reply: an error where one of them is
/// no mailbox, the sender's first.
pub open spec fn addresses_checked(
    r: Result<(), CoreError>,
    from: Option<Seq<char>>,
    to: Option<Seq<char>>,
) -> bool {
    match (from, to) {
        (Some(e), _) => r matches Err(CoreError::InvalidInput(m)) && m@
            == "invalid from address: "@ + e,
        (None, Some(e)) => r matches Err(CoreError::InvalidInput(m)) && m@
            == "invalid to address: "@ + e,
        (None, None) => r is Ok,
    }
}

/// What comes of what is wrong with the addresses of a reply.
pub fn judge_addresses(from: Option<String>, to: Option<String>) -> (r: Result<(), CoreError>)
    ensures
        addresses_checked(
            r,
            message::optional_text(from),
            message::optional_text(to),
        ),
{
    match (from, to) {
        (Some(e), _) => Err(CoreError::InvalidInput(joined("invalid from address: ", e.as_str()))),
        (None, Some(e)) => Err(
            CoreError::InvalidInput(joined("invalid to address: ", e.as_str())),
        ),
        (None, None) => Ok(()),
    }
}

/// Whether a reply can go from one address to another.
pub fn check_addresses(from: &str, to: &str) -> (r: Result<(), CoreError>)
    ensures
        addresses_checked(r, mailbox_error(from@), mailbox_error(to@)),
{
    judge_addresses(check_mailbox(from), check_mailbox(to))
}

fn connection_error(m: &str) -> (r: CoreError)
    ensures
        is_connection_error(r, m@),
{
    CoreError::Connection(m.to_owned())
}

/// The settings that an adapter connects with: its own where it has a host,
/// else those of the domain of the label.
pub open spec fn connect_settings(a: EmailAdapter, label: Seq<char>) -> SettingsText {
    match a.imap_host {
        Some(h) => SettingsText {
            host: h@,
            port: a.imap_port,
            smtp_host: text::text_or_empty(a.smtp_host),
            smtp_port: a.smtp_port,
        },
        None => settings_for(domain_of(label)),
    }
}

impl EmailAdapter {
    /// An adapter whose settings come with its first connection.
    pub fn new() -> (r: EmailAdapter)
        ensures
            r.imap_host is None,
            r.imap_port == 993,
            r.smtp_host is None,
            r.smtp_port == 587,
            r.username is None,
            r.password is None,
            !r.connected,
    {
        EmailAdapter {
            imap_host: None,
            imap_port: 993,
            smtp_host: None,
            smtp_port: 587,
            username: None,
            password: None,
            connected: false,
        }
    }

    /// An adapter with these settings.
    pub fn with_settings(settings: ImapSettings) -> (r: EmailAdapter)
        ensures
            r.imap_host == Some(settings.host),
            r.imap_port == settings.port,
            r.smtp_host == Some(settings.smtp_host),
            r.smtp_port == settings.smtp_port,
            r.username is None,
            r.password is None,
            !r.connected,
    {
        EmailAdapter {
            imap_host: Some(settings.host),
            imap_port: settings.port,
            smtp_host: Some(settings.smtp_host),
            smtp_port: settings.smtp_port,
            username: None,
            password: None,
            connected: false,
        }
    }

    /// The settings for an address.
    pub fn derive_settings(email: &str) -> (r: ImapSettings)
        ensures
            r@ == settings_for(domain_of(email@)),
    {
        let v = to_chars(email);
        let k: usize = find_char(v.as_slice(), '@');
        let domain = if k < v.len() {
            let rest = slice_subrange(v.as_slice(), k + 1, v.len());
            proof {
                assert(rest@ =~= email@.skip(k + 1));
            }
            let n: usize = find_char(rest, '@');
            from_chars(slice_subrange(rest, 0, n))
        } else {
            "gmail.com".to_owned()
        };
        let d = domain.as_str();
        if str_eq(d, "gmail.com") || str_eq(d, "googlemail.com") {
            ImapSettings {
                host: "imap.gmail.com".to_owned(),
                port: 993,
                smtp_host: "smtp.gmail.com".to_owned(),
                smtp_port: 587,
            }
        } else if str_eq(d, "outlook.com") || str_eq(d, "hotmail.com") || str_eq(d, "live.com") {
            ImapSettings {
                host: "outlook.office365.com".to_owned(),
                port: 993,
                smtp_host: "smtp.office365.com".to_owned(),
                smtp_port: 587,
            }
        } else {
            ImapSettings {
                host: joined("imap.", d),
                port: 993,
                smtp_host: joined("smtp.", d),
                smtp_port: 587,
            }
        }
    }

    /// Takes over the settings and credentials of a channel. The settings stay
    /// also where the credentials are not `user:password`.
    pub fn connect(&mut self, config: &ChannelConfig) -> (r: Result<(), CoreError>)
        ensures
            ({
                let s = connect_settings(*old(self), config.label@);
                &&& final(self).imap_host matches Some(h) && h@ == s.host
                &&& final(self).imap_port == s.port
                &&& final(self).smtp_host matches Some(h) && h@ == s.smtp_host
                &&& final(self).smtp_port == s.smtp_port
            }),
            match credentials(config.keychain_ref@) {
                Some((user, password)) => {
                    &&& r is Ok
                    &&& final(self).username matches Some(u) && u@ == user
                    &&& final(self).password matches Some(p) && p@ == password
                    &&& final(self).connected
                },
                None => {
                    &&& r is Err
                    &&& r->Err_0 matches CoreError::Auth(m) && m@
                        == "credentials must be in 'user:password' format"@
                    &&& final(self).username == old(self).username
                    &&& final(self).password == old(self).password
                    &&& final(self).connected == old(self).connected
                },
            },
    {
        let settings = match &self.imap_host {
            Some(h) => ImapSettings {
                host: h.clone(),
                port: self.imap_port,
                smtp_host: copy_or_empty(&self.smtp_host),
                smtp_port: self.smtp_port,
            },
            None => EmailAdapter::derive_settings(config.label.as_str()),
        };
        self.imap_host = Some(settings.host);
        self.imap_port = settings.port;
        self.smtp_host = Some(settings.smtp_host);
        self.smtp_port = settings.smtp_port;
        let v = to_chars(config.keychain_ref.as_str());
        let k: usize = find_char(v.as_slice(), ':');
        if k >= v.len() {
            return Err(
                CoreError::Auth("credentials must be in 'user:password' format".to_owned()),
            );
        }
        let user = from_chars(slice_subrange(v.as_slice(), 0, k));
        let password = from_chars(slice_subrange(v.as_slice(), k + 1, v.len()));
        proof {
            assert(password@ =~= config.keychain_ref@.skip(k + 1));
        }
        self.username = Some(user);
        self.password = Some(password);
        self.connected = true;
        Ok(())
    }

    /// What is needed to fetch mail from a time on.
    pub fn fetch_plan(&self, since: Option<Timestamp>) -> (r: Result<FetchPlan, CoreError>)
        ensures
            if !self.connected {
                r is Err && is_connection_error(r->Err_0, "not connected"@)
            } else if self.imap_host is None {
                r is Err && is_connection_error(r->Err_0, "IMAP host not set"@)
            } else if self.username is None {
                r is Err && is_connection_error(r->Err_0, "username not set"@)
            } else if self.password is None {
                r is Err && is_connection_error(r->Err_0, "password not set"@)
            } else {
                &&& r is Ok
                &&& r->Ok_0.host@ == self.imap_host->0@
                &&& r->Ok_0.address@ == self.imap_host->0@ + ":"@ + text::decimal(
                    self.imap_port as nat,
                )
                &&& r->Ok_0.username@ == self.username->0@
                &&& r->Ok_0.password@ == self.password->0@
                &&& r->Ok_0.search_query@ == search_text(since)
            },
    {
        if !self.connected {
            return Err(connection_error("not connected"));
        }
        let host = match &self.imap_host {
            Some(h) => h,
            None => return Err(connection_error("IMAP host not set")),
        };
        let username = match &self.username {
            Some(u) => u,
            None => return Err(connection_error("username not set")),
        };
        let password = match &self.password {
            Some(p) => p,
            None => return Err(connection_error("password not set")),
        };
        let mut address = joined(host.as_str(), ":");
        address.append(decimal_string(self.imap_port as u128).as_str());
        let search_query = match since {
            Some(t) => joined("SINCE ", t.imap_date().as_str()),
            None => "ALL".to_owned(),
        };
        Ok(
            FetchPlan {
                host: host.clone(),
                address,
                username: username.clone(),
                password: password.clone(),
                search_query,
            },
        )
    }

    /// What is needed to send a reply. The addresses are judged apart, by
    /// `check_addresses`.
    pub fn reply_plan(&self, content: &MessageContent) -> (r: Result<ReplyPlan, CoreError>)
        ensures
            if !self.connected {
                r is Err && is_connection_error(r->Err_0, "not connected"@)
            } else if self.smtp_host is None {
                r is Err && is_connection_error(r->Err_0, "SMTP host not set"@)
            } else if self.username is None {
                r is Err && is_connection_error(r->Err_0, "username not set"@)
            } else if self.password is None {
                r is Err && is_connection_error(r->Err_0, "password not set"@)
            } else if content.text is None {
                r is Err && (r->Err_0 matches CoreError::InvalidInput(m) && m@
                    == "email body text is required"@)
            } else {
                &&& r is Ok
                &&& r->Ok_0.smtp_host@ == self.smtp_host->0@
                &&& r->Ok_0.smtp_port == self.smtp_port
                &&& r->Ok_0.username@ == self.username->0@
                &&& r->Ok_0.password@ == self.password->0@
                &&& r->Ok_0.subject@ == match content.subject {
                    Some(s) => s@,
                    None => "Re:"@,
                }
                &&& r->Ok_0.text@ == content.text->0@
            },
    {
        if !self.connected {
            return Err(connection_error("not connected"));
        }
        let smtp_host = match &self.smtp_host {
            Some(h) => h,
            None => return Err(connection_error("SMTP host not set")),
        };
        let username = match &self.username {
            Some(u) => u,
            None => return Err(connection_error("username not set")),
        };
        let password = match &self.password {
            Some(p) => p,
            None => return Err(connection_error("password not set")),
        };
        let text = match &content.text {
            Some(t) => t,
            None => {
                return Err(CoreError::InvalidInput("email body text is required".to_owned()));
            },
        };
        let subject = match &content.subject {
            Some(s) => s.clone(),
            None => "Re:".to_owned(),
        };
        Ok(
            ReplyPlan {
                smtp_host: smtp_host.clone(),
                smtp_port: self.smtp_port,
                username: username.clone(),
                password: password.clone(),
                subject,
                text: text.clone(),
            },
        )
    }

    /// Forgets the credentials.
    pub fn disconnect(&mut self) -> (r: Result<(), CoreError>)
        ensures
            r is Ok,
            !final(self).connected,
            final(self).username is None,
            final(self).password is None,
            final(self).imap_host == old(self).imap_host,
            final(self).imap_port == old(self).imap_port,
            final(self).smtp_host == old(self).smtp_host,
            final(self).smtp_port == old(self).smtp_port,
    {
        self.connected = false;
        self.username = None;
        self.password = None;
        Ok(())
    }

    /// The channel that the adapter serves.
    pub fn channel_type(&self) -> (r: Channel)
        ensures
            r == Channel::Email,
    {
        Channel::Email
    }
}

// ---------------------------------------------------------------------------
// Which mails are fetched
// ---------------------------------------------------------------------------

/// The most mails that are fetched at once.
pub const MAX_MAILS: usize = 100;

/// Numbers as weights.
pub open spec fn uid_weights(uids: Seq<u32>) -> Seq<u128> {
    uids.map_values(|u: u32| u as u128)
}

/// The number of mails that are fetched of `n`.
pub open spec fn fetched_count(n: nat) -> nat {
    if n < MAX_MAILS {
        n
    } else {
        MAX_MAILS as nat
    }
}

/// `r` holds the greatest of the numbers, the greatest first.
pub open spec fn newest(r: Seq<u32>, uids: Seq<u32>) -> bool {
    exists|order: Seq<usize>|
        #[trigger] text::heaviest_first(order, uid_weights(uids)) && r == order.take(
            fetched_count(uids.len()) as int,
        ).map_values(|i: usize| uids[i as int])
}

/// The mails that are fetched: the hundred with the greatest numbers, the
/// greatest first.
pub fn select_uids(uids: &Vec<u32>) -> (r: Vec<u32>)
    ensures
        newest(r@, uids@),
{
    let mut weights: Vec<u128> = Vec::new();
    for i in 0..uids.len()
        invariant
            weights@ == uid_weights(uids@).take(i as int),
    {
        weights.push(uids[i] as u128);
        proof {
            assert(weights@ =~= uid_weights(uids@).take(i + 1));
        }
    }
    proof {
        assert(weights@ =~= uid_weights(uids@));
    }
    let order = order_by_weight(&weights);
    let n: usize = if uids.len() < MAX_MAILS {
        uids.len()
    } else {
        MAX_MAILS
    };
    let ghost all = order@.take(n as int).map_values(|i: usize| uids@[i as int]);
    let mut r: Vec<u32> = Vec::new();
    for i in 0..n
        invariant
            n <= order@.len(),
            text::heaviest_first(order@, weights@),
            weights@.len() == uids@.len(),
            all == order@.take(n as int).map_values(|i: usize| uids@[i as int]),
            r@ == all.take(i as int),
    {
        proof {
            assert(order@[i as int] < weights@.len());
        }
        r.push(uids[order[i]]);
        proof {
            assert(r@ =~= all.take(i + 1));
        }
    }
    proof {
        assert(r@ =~= all);
    }
    r
}

/// The numbers, with a comma between each two.
pub open spec fn comma_separated(uids: Seq<u32>) -> Seq<char>
    decreases uids.len(),
{
    if uids.len() == 0 {
        Seq::empty()
    } else if uids.len() == 1 {
        text::decimal(uids[0] as nat)
    } else {
        comma_separated(uids.drop_last()) + ","@ + text::decimal(uids.last() as nat)
    }
}

/// The numbers of the mails as IMAP wants them.
pub fn uid_range(uids: &Vec<u32>) -> (r: String)
    ensures
        r@ == comma_separated(uids@),
{
    let mut out = String::new();
    proof {
        assert(out@ =~= Seq::empty());
        assert(uids@.take(0).len() == 0);
    }
    for i in 0..uids.len()
        invariant
            out@ == comma_separated(uids@.take(i as int)),
    {
        proof {
            assert(uids@.take(i + 1).drop_last() =~= uids@.take(i as int));
            assert(uids@.take(i + 1).last() == uids@[i as int]);
        }
        if i > 0 {
            out.append(",");
            out.append(decimal_string(uids[i] as u128).as_str());
        } else {
            out = decimal_string(uids[i] as u128);
            proof {
                assert(uids@.take(1)[0] == uids@[0]);
            }
        }
    }
    proof {
        assert(uids@.take(uids@.len() as int) =~= uids@);
    }
    out
}

/// What IMAP is asked for, of the mails that were found; nothing where none was.
pub fn fetch_range(uids: &Vec<u32>) -> (r: Option<String>)
    ensures
        match r {
            Some(range) => uids@.len() > 0 && exists|chosen: Seq<u32>| #[trigger]
                newest(chosen, uids@) && range@ == comma_separated(chosen),
            None => uids@.len() == 0,
        },
{
    if uids.len() == 0 {
        return None;
    }
    let chosen = select_uids(uids);
    Some(uid_range(&chosen))
}

// ---------------------------------------------------------------------------
// Laws
// ---------------------------------------------------------------------------

/// Credentials that are put together from a user without a colon and any
/// password come apart into the two.
pub proof fn credentials_come_apart(user: Seq<char>, password: Seq<char>)
    requires
        !user.contains(':'),
    ensures
        credentials(user + ":"@ + password) == Some((user, password)),
{
    reveal_strlit(":");
    let s = user + ":"@ + password;
    assert forall|i: int| 0 <= i < user.len() implies #[trigger] s[i] != ':' by {
        assert(s[i] == user[i]);
        if user[i] == ':' {
            assert(user.contains(':'));
        }
    }
    assert(s[user.len() as int] == ':');
    text::lemma_first_index(s, ':', user.len() as int);
    assert(s.take(user.len() as int) =~= user);
    assert(s.skip((user.len() + 1) as int) =~= password);
}

/// What is fetched comes in falling order, and nothing that is left out is
/// greater than what is fetched.
pub proof fn newest_mails_come_first(r: Seq<u32>, uids: Seq<u32>, i: int, j: int, k: int)
    requires
        newest(r, uids),
        uids.len() <= usize::MAX,
        0 <= i <= j < r.len(),
        0 <= k < uids.len(),
    ensures
        r.len() == fetched_count(uids.len()),
        r[i] >= r[j],
        r.contains(uids[k]) || uids[k] <= r[j],
{
    let w = uid_weights(uids);
    let order = choose|order: Seq<usize>|
        #[trigger] text::heaviest_first(order, w) && r == order.take(
            fetched_count(uids.len()) as int,
        ).map_values(|i: usize| uids[i as int]);
    assert(order[i] < w.len() && order[j] < w.len());
    assert(w[order[i] as int] >= w[order[j] as int]);
    assert(r[i] == uids[order[i] as int]);
    assert(r[j] == uids[order[j] as int]);
    assert(order.contains(k as usize));
    let m = choose|m: int| 0 <= m < order.len() && order[m] == k as usize;
    if m < r.len() {
        assert(r[m] == uids[order[m] as int]);
    } else {
        assert(w[order[j] as int] >= w[order[m] as int]);
    }
}

} // verus!
