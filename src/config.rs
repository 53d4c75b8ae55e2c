use vstd::prelude::*;

use crate::text::{split_at_char, split_on};

verus! {

/// A setting of the job, each read once at startup.
#[derive(Debug, Clone, Copy, PartialEq, Eq, Structural)]
pub enum Setting {
    IntervalMinutes,
    ProductsUrl,
    MatchaBrands,
    SmtpUrl,
    SmtpUser,
    SmtpPassword,
    SmtpTranscipient,
    SmtpRecipient,
    SmtpNotificationSubject,
}

impl Setting {
    /// The environment variable that holds the setting.
    pub fn name(&self) -> (r: &'static str)
        ensures
            r@ == setting_name(*self),
    {
        match self {
            Setting::IntervalMinutes => "JOB_INTERVAL_MINUTES",
            Setting::ProductsUrl => "PRODUCTS_URL",
            Setting::MatchaBrands => "MATCHA_BRANDS",
            Setting::SmtpUrl => "SMTP_URL",
            Setting::SmtpUser => "SMTP_USER",
            Setting::SmtpPassword => "SMTP_PASSWORD",
            Setting::SmtpTranscipient => "SMTP_TRANSCIPIENT",
            Setting::SmtpRecipient => "SMTP_RECIPIENT",
            Setting::SmtpNotificationSubject => "SMTP_NOTIFICATION_SUBJECT",
        }
    }
}

/// Why the settings do not make a valid configuration.
#[derive(Debug, Clone, Copy, PartialEq, Eq, Structural)]
pub enum JobParameterError {
    NotPresent(Setting),
    InvalidFormat(Setting),
}

impl JobParameterError {
    /// A one-line description naming the setting.
    pub fn describe(&self) -> (r: String)
        ensures
            r@ == match *self {
                JobParameterError::NotPresent(s) => "Job parameter '"@ + setting_name(s)
                    + "' not found"@,
                JobParameterError::InvalidFormat(s) => "Job parameter '"@ + setting_name(s)
                    + "' is invalid format"@,
            },
    {
        let mut r = String::from_str("Job parameter '");
        match self {
            JobParameterError::NotPresent(s) => {
                r.append(s.name());
                r.append("' not found");
            },
            JobParameterError::InvalidFormat(s) => {
                r.append(s.name());
                r.append("' is invalid format");
            },
        }
        r
    }
}

/// The text of each setting as the environment gave it, `None` where it is unset.
pub struct RawSettings {
    pub interval_minutes: Option<String>,
    pub products_url: Option<String>,
    pub matcha_brands: Option<String>,
    pub smtp_url: Option<String>,
    pub smtp_user: Option<String>,
    pub smtp_password: Option<String>,
    pub smtp_transcipient: Option<String>,
    pub smtp_recipient: Option<String>,
    pub smtp_notification_subject: Option<String>,
}

/// The validated configuration of the job.
pub struct JobParameters {
    pub interval_minutes: u64,
    pub products_url: String,
    pub matcha_brands: Vec<String>,
    pub matcha_ingredients: Vec<String>,
    pub smtp_url: String,
    pub smtp_user: String,
    pub smtp_password: String,
    pub smtp_transcipient: String,
    pub smtp_recipient: String,
    pub smtp_notification_subject: String,
}

/// The environment variable of a setting.
pub open spec fn setting_name(s: Setting) -> Seq<char> {
    match s {
        Setting::IntervalMinutes => "JOB_INTERVAL_MINUTES"@,
        Setting::ProductsUrl => "PRODUCTS_URL"@,
        Setting::MatchaBrands => "MATCHA_BRANDS"@,
        Setting::SmtpUrl => "SMTP_URL"@,
        Setting::SmtpUser => "SMTP_USER"@,
        Setting::SmtpPassword => "SMTP_PASSWORD"@,
        Setting::SmtpTranscipient => "SMTP_TRANSCIPIENT"@,
        Setting::SmtpRecipient => "SMTP_RECIPIENT"@,
        Setting::SmtpNotificationSubject => "SMTP_NOTIFICATION_SUBJECT"@,
    }
}

/// A decimal digit.
pub open spec fn is_digit(c: char) -> bool {
    '0' <= c && c <= '9'
}

/// The value of a run of decimal digits.
pub open spec fn digits_value(s: Seq<char>) -> nat
    decreases s.len(),
{
    if s.len() == 0 {
        0
    } else {
        digits_value(s.drop_last()) * 10 + ((s.last() as u32) - 48) as nat
    }
}

/// The digits of an unsigned number, after an optional leading `+`.
pub open spec fn unsigned_digits(s: Seq<char>) -> Seq<char> {
    if s.len() > 0 && s[0] == '+' {
        s.skip(1)
    } else {
        s
    }
}

/// What `u64::from_str` accepts: an optional `+`, then one or more decimal digits
/// whose value fits in 64 bits.
pub open spec fn parse_u64_spec(s: Seq<char>) -> Option<u64> {
    let d = unsigned_digits(s);
    if d.len() > 0 && (forall|i: int| 0 <= i < d.len() ==> is_digit(#[trigger] d[i]))
        && digits_value(d) <= u64::MAX {
        Some(digits_value(d) as u64)
    } else {
        None
    }
}

/// A polling interval is a positive number of minutes whose seconds fit in 64 bits.
pub open spec fn valid_interval(minutes: u64) -> bool {
    1 <= minutes && minutes * 60 <= u64::MAX
}

/// The ingredient keywords that mark a product as matcha.
pub open spec fn default_ingredients() -> Seq<Seq<char>> {
    seq!["matcha"@, "green tea powder"@]
}

/// The first problem of the settings, in the order they are read.
pub open spec fn settings_problem(raw: RawSettings) -> Option<JobParameterError> {
    if raw.interval_minutes is None {
        Some(JobParameterError::NotPresent(Setting::IntervalMinutes))
    } else if !(parse_u64_spec(raw.interval_minutes.unwrap()@) matches Some(m)
        && valid_interval(m)) {
        Some(JobParameterError::InvalidFormat(Setting::IntervalMinutes))
    } else if raw.products_url is None {
        Some(JobParameterError::NotPresent(Setting::ProductsUrl))
    } else if raw.matcha_brands is None {
        Some(JobParameterError::NotPresent(Setting::MatchaBrands))
    } else if raw.smtp_url is None {
        Some(JobParameterError::NotPresent(Setting::SmtpUrl))
    } else if raw.smtp_user is None {
        Some(JobParameterError::NotPresent(Setting::SmtpUser))
    } else if raw.smtp_password is None {
        Some(JobParameterError::NotPresent(Setting::SmtpPassword))
    } else if raw.smtp_transcipient is None {
        Some(JobParameterError::NotPresent(Setting::SmtpTranscipient))
    } else if raw.smtp_recipient is None {
        Some(JobParameterError::NotPresent(Setting::SmtpRecipient))
    } else if raw.smtp_notification_subject is None {
        Some(JobParameterError::NotPresent(Setting::SmtpNotificationSubject))
    } else {
        None
    }
}

impl JobParameters {
    /// The configuration is usable: its interval is valid.
    pub open spec fn wf(&self) -> bool {
        valid_interval(self.interval_minutes)
    }

    /// `self` is what the settings `raw`, free of problems, describe.
    pub open spec fn read_from(&self, raw: RawSettings) -> bool {
        &&& Some(self.interval_minutes) == parse_u64_spec(raw.interval_minutes.unwrap()@)
        &&& self.products_url@ == raw.products_url.unwrap()@
        &&& self.matcha_brands@.map_values(|b: String| b@) == split_on(
            raw.matcha_brands.unwrap()@,
            ',',
        )
        &&& self.matcha_ingredients@.map_values(|b: String| b@) == default_ingredients()
        &&& self.smtp_url@ == raw.smtp_url.unwrap()@
        &&& self.smtp_user@ == raw.smtp_user.unwrap()@
        &&& self.smtp_password@ == raw.smtp_password.unwrap()@
        &&& self.smtp_transcipient@ == raw.smtp_transcipient.unwrap()@
        &&& self.smtp_recipient@ == raw.smtp_recipient.unwrap()@
        &&& self.smtp_notification_subject@ == raw.smtp_notification_subject.unwrap()@
    }
}

/// Digit values never shrink as digits are added.
proof fn lemma_digits_value_grows(s: Seq<char>, i: int)
    requires
        0 <= i <= s.len(),
    ensures
        digits_value(s.take(i)) <= digits_value(s),
    decreases s.len() - i,
{
    if i < s.len() {
        lemma_digits_value_grows(s, i + 1);
        assert(s.take(i + 1).drop_last() =~= s.take(i));
    } else {
        assert(s.take(i) =~= s);
    }
}

/// Parses an unsigned decimal number as `u64::from_str` does.
pub fn parse_u64(s: &str) -> (r: Option<u64>)
    ensures
        r == parse_u64_spec(s@),
{
    let cs = crate::text::chars_of(s);
    let ghost d = unsigned_digits(s@);
    let start: usize = if cs.len() > 0 && cs[0] == '+' {
        1
    } else {
        0
    };
    assert(d =~= cs@.skip(start as int));
    if start >= cs.len() {
        return None;
    }
    let mut value: u64 = 0;
    let mut i: usize = start;
    while i < cs.len()
        invariant
            cs@ == s@,
            start <= i <= cs@.len(),
            d == cs@.skip(start as int),
            d == unsigned_digits(s@),
            forall|k: int| 0 <= k < i - start ==> is_digit(#[trigger] d[k]),
            value as nat == digits_value(d.take(i - start)),
        decreases cs@.len() - i,
    {
        let c = cs[i];
        proof {
            assert(d.take(i - start + 1).drop_last() =~= d.take(i - start));
            assert(d[i - start] == c);
        }
        if c < '0' || c > '9' {
            assert(!is_digit(d[i - start]));
            return None;
        }
        let digit: u64 = ((c as u32) - 48) as u64;
        assert(digits_value(d.take(i - start + 1)) == value * 10 + digit);
        let next = match value.checked_mul(10) {
            Some(v) => v.checked_add(digit),
            None => None,
        };
        match next {
            Some(v) => {
                value = v;
            },
            None => {
                proof {
                    lemma_digits_value_grows(d, i - start + 1);
                }
                return None;
            },
        }
        i += 1;
    }
    assert(d.take(d.len() as int) =~= d);
    Some(value)
}

/// The default ingredient keywords.
pub fn matcha_ingredients() -> (r: Vec<String>)
    ensures
        r@.map_values(|b: String| b@) == default_ingredients(),
{
    let r = vec![String::from_str("matcha"), String::from_str("green tea powder")];
    assert(r@.map_values(|b: String| b@) =~= default_ingredients());
    r
}

/// Validates the settings. Each is required; the interval must be a positive
/// number of minutes. The first problem, in the order the settings are listed,
/// is reported.
pub fn parse_job_parameters(raw: RawSettings) -> (r: Result<JobParameters, JobParameterError>)
    ensures
        match settings_problem(raw) {
            Some(e) => r == Err::<JobParameters, JobParameterError>(e),
            None => r matches Ok(p) && p.wf() && p.read_from(raw),
        },
{
    let interval_minutes = match &raw.interval_minutes {
        None => {
            return Err(JobParameterError::NotPresent(Setting::IntervalMinutes));
        },
        Some(text) => match parse_u64(text.as_str()) {
            Some(m) if m >= 1 && m <= u64::MAX / 60 => m,
            _ => {
                return Err(JobParameterError::InvalidFormat(Setting::IntervalMinutes));
            },
        },
    };
    let ghost raw0 = raw;
    let RawSettings {
        interval_minutes: _,
        products_url,
        matcha_brands,
        smtp_url,
        smtp_user,
        smtp_password,
        smtp_transcipient,
        smtp_recipient,
        smtp_notification_subject,
    } = raw;
    let products_url = match products_url {
        None => {
            return Err(JobParameterError::NotPresent(Setting::ProductsUrl));
        },
        Some(v) => v,
    };
    let matcha_brands = match matcha_brands {
        None => {
            return Err(JobParameterError::NotPresent(Setting::MatchaBrands));
        },
        Some(v) => split_at_char(v.as_str(), ','),
    };
    let smtp_url = match smtp_url {
        None => {
            return Err(JobParameterError::NotPresent(Setting::SmtpUrl));
        },
        Some(v) => v,
    };
    let smtp_user = match smtp_user {
        None => {
            return Err(JobParameterError::NotPresent(Setting::SmtpUser));
        },
        Some(v) => v,
    };
    let smtp_password = match smtp_password {
        None => {
            return Err(JobParameterError::NotPresent(Setting::SmtpPassword));
        },
        Some(v) => v,
    };
    let smtp_transcipient = match smtp_transcipient {
        None => {
            return Err(JobParameterError::NotPresent(Setting::SmtpTranscipient));
        },
        Some(v) => v,
    };
    let smtp_recipient = match smtp_recipient {
        None => {
            return Err(JobParameterError::NotPresent(Setting::SmtpRecipient));
        },
        Some(v) => v,
    };
    let smtp_notification_subject = match smtp_notification_subject {
        None => {
            return Err(JobParameterError::NotPresent(Setting::SmtpNotificationSubject));
        },
        Some(v) => v,
    };
    Ok(JobParameters {
        interval_minutes,
        products_url,
        matcha_brands,
        matcha_ingredients: matcha_ingredients(),
        smtp_url,
        smtp_user,
        smtp_password,
        smtp_transcipient,
        smtp_recipient,
        smtp_notification_subject,
    })
}

} // verus!
