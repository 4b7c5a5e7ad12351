//! What a command hands back: its status, its messages and, for transfers,
//! their outcome; and what the config command reports for each result.

use vstd::prelude::*;
use crate::app::config::api::{
    ActiveDirectoryConfigInfo, OpenIdConfigInfo, RefreshTokenInfo, SystemInfo,
};
use crate::app::nodes::download::DownloadOutcome;
use crate::app::nodes::upload::UploadOutcome;
use crate::app::outcome::{CommandOutcome, OutcomeMessageKind};
use crate::text::{append_str, dec, string_of, u64_to_string};

verus! {

/// Whether a command succeeded.
#[derive(Debug, Clone, Copy, PartialEq, Eq, Structural)]
pub enum AppStatus {
    Success,
    PartialFailure,
    Failure,
}

/// The outcome of a transfer command.
#[derive(Debug, Clone, PartialEq, Eq)]
pub enum AppPayload {
    Download(DownloadOutcome),
    Upload(UploadOutcome),
}

/// The result of a command.
#[derive(Debug, Clone, PartialEq, Eq)]
pub struct AppResult {
    status: AppStatus,
    outcome: CommandOutcome,
    payload: Option<AppPayload>,
}

impl AppResult {
    pub closed spec fn status_view(&self) -> AppStatus {
        self.status
    }

    pub closed spec fn outcome_view(&self) -> CommandOutcome {
        self.outcome
    }

    pub closed spec fn payload_view(&self) -> Option<AppPayload> {
        self.payload
    }

    pub fn success(outcome: CommandOutcome) -> (r: Self)
        ensures
            r.status_view() == AppStatus::Success,
            r.outcome_view() == outcome,
            r.payload_view() is None,
    {
        AppResult { status: AppStatus::Success, outcome, payload: None }
    }

    pub fn partial_failure(outcome: CommandOutcome) -> (r: Self)
        ensures
            r.status_view() == AppStatus::PartialFailure,
            r.outcome_view() == outcome,
            r.payload_view() is None,
    {
        AppResult { status: AppStatus::PartialFailure, outcome, payload: None }
    }

    pub fn failure(outcome: CommandOutcome) -> (r: Self)
        ensures
            r.status_view() == AppStatus::Failure,
            r.outcome_view() == outcome,
            r.payload_view() is None,
    {
        AppResult { status: AppStatus::Failure, outcome, payload: None }
    }

    pub fn with_payload(self, payload: AppPayload) -> (r: Self)
        ensures
            r.status_view() == self.status_view(),
            r.outcome_view() == self.outcome_view(),
            r.payload_view() == Some(payload),
    {
        AppResult { status: self.status, outcome: self.outcome, payload: Some(payload) }
    }

    pub fn status(&self) -> (s: AppStatus)
        ensures
            s == self.status_view(),
    {
        self.status
    }

    pub fn payload(&self) -> (p: Option<&AppPayload>)
        ensures
            match self.payload_view() {
                Some(x) => p == Some(&x),
                None => p is None,
            },
    {
        match &self.payload {
            Some(p) => Some(p),
            None => None,
        }
    }

    /// The messages of the command.
    pub fn outcome(&self) -> (o: &CommandOutcome)
        ensures
            *o == self.outcome_view(),
    {
        &self.outcome
    }
}

/// The result for a status: success, partial failure or failure with the
/// given messages.
pub fn app_result_from_status(status: AppStatus, outcome: CommandOutcome) -> (r: AppResult)
    ensures
        r.status_view() == status,
        r.outcome_view() == outcome,
        r.payload_view() is None,
{
    match status {
        AppStatus::Success => AppResult::success(outcome),
        AppStatus::PartialFailure => AppResult::partial_failure(outcome),
        AppStatus::Failure => AppResult::failure(outcome),
    }
}

/// What the config command found.
#[derive(Debug, Clone)]
pub enum ConfigPlatformResult {
    AuthTokenInfo { base_url: String, user_info: RefreshTokenInfo },
    AuthTokenRemoved { base_url: String },
    CryptoSecretStored { base_url: String },
    CryptoSecretRemoved { base_url: String },
    SystemInfo { base_url: String, system_info: SystemInfo },
    MissingToken { base_url: String },
    MissingCryptoSecret,
}

/// One line of the config command's report. The usage lines show
/// percentages, which the caller renders.
#[derive(Debug, Clone)]
pub enum ConfigReportLine {
    Message(OutcomeMessageKind, String),
    SpaceUsage { used: u64, limit: u64 },
    AccountUsage { used: u64, limit: u64 },
}

/// A report line seen as plain values.
pub enum ReportLineSpec {
    Message(OutcomeMessageKind, Seq<char>),
    SpaceUsage(u64, u64),
    AccountUsage(u64, u64),
}

pub open spec fn report_line_view(l: ConfigReportLine) -> ReportLineSpec {
    match l {
        ConfigReportLine::Message(k, t) => ReportLineSpec::Message(k, t@),
        ConfigReportLine::SpaceUsage { used, limit } => ReportLineSpec::SpaceUsage(used, limit),
        ConfigReportLine::AccountUsage { used, limit } => ReportLineSpec::AccountUsage(used, limit),
    }
}

pub open spec fn info(t: Seq<char>) -> ReportLineSpec {
    ReportLineSpec::Message(OutcomeMessageKind::Info, t)
}

/// The line that lists one OpenID Connect provider.
pub open spec fn oidc_line(c: OpenIdConfigInfo) -> ReportLineSpec {
    info("► "@ + c.name@ + " ("@ + dec(c.id as nat) + ")"@)
}

/// The line that lists one Active Directory configuration.
pub open spec fn ad_line(c: ActiveDirectoryConfigInfo) -> ReportLineSpec {
    info("► "@ + c.alias@ + " ("@ + dec(c.id as nat) + ")"@)
}

/// The report lines of the identity configurations of a system.
pub open spec fn idp_lines(s: SystemInfo) -> Seq<ReportLineSpec> {
    let oidc = if s.oidc_configs@.len() > 0 {
        seq![info("\n► OpenID Connect IDP configurations:"@)] + s.oidc_configs@.map_values(
            |c: OpenIdConfigInfo| oidc_line(c),
        )
    } else {
        seq![info("\n► No OpenID Connect IDP configurations found."@)]
    };
    let ad = if s.ad_configs@.len() > 0 {
        seq![info("\n► Active Directory configurations:"@)] + s.ad_configs@.map_values(
            |c: ActiveDirectoryConfigInfo| ad_line(c),
        )
    } else {
        seq![info("\n► No Active Directory configurations found."@)]
    };
    oidc + ad
}

/// The report of the config command for a result, and its status: a
/// missing token or secret is a failure, anything else a success.
pub open spec fn config_report_spec(r: ConfigPlatformResult) -> (Seq<ReportLineSpec>, AppStatus) {
    match r {
        ConfigPlatformResult::AuthTokenInfo { base_url, user_info } => (
            seq![
                info("► Token stored for: "@ + base_url@),
                info("► User: "@ + user_info.first_name@ + " "@ + user_info.last_name@),
                info("► Email: "@ + match user_info.email {
                    Some(e) => e@,
                    None => "N/A"@,
                }),
                info("► Username: "@ + user_info.user_name@),
            ],
            AppStatus::Success,
        ),
        ConfigPlatformResult::AuthTokenRemoved { base_url } => (
            seq![ReportLineSpec::Message(OutcomeMessageKind::Success, "Token removed for "@ + base_url@)],
            AppStatus::Success,
        ),
        ConfigPlatformResult::CryptoSecretStored { base_url } => (
            seq![info("► Encryption secret securely stored for "@ + base_url@ + "."@)],
            AppStatus::Success,
        ),
        ConfigPlatformResult::CryptoSecretRemoved { base_url } => (
            seq![
                ReportLineSpec::Message(
                    OutcomeMessageKind::Success,
                    "Encryption secret removed for "@ + base_url@ + "."@,
                ),
            ],
            AppStatus::Success,
        ),
        ConfigPlatformResult::SystemInfo { base_url, system_info } => (
            seq![
                info("► System info for: "@ + base_url@),
                info("► Customer: "@ + system_info.customer.name@),
                ReportLineSpec::SpaceUsage(
                    system_info.customer.space_used,
                    system_info.customer.space_limit,
                ),
                ReportLineSpec::AccountUsage(
                    system_info.customer.accounts_used,
                    system_info.customer.accounts_limit,
                ),
            ] + idp_lines(system_info),
            AppStatus::Success,
        ),
        ConfigPlatformResult::MissingToken { base_url } => (
            seq![
                ReportLineSpec::Message(
                    OutcomeMessageKind::Error,
                    "No token found for this DRACOON url: "@ + base_url@ + "."@,
                ),
            ],
            AppStatus::Failure,
        ),
        ConfigPlatformResult::MissingCryptoSecret => (
            seq![ReportLineSpec::Message(OutcomeMessageKind::Error, "No encryption secret found."@)],
            AppStatus::Failure,
        ),
    }
}

fn concat2(a: &str, b: &str) -> (r: String)
    ensures
        r@ == a@ + b@,
{
    let mut v: Vec<char> = Vec::new();
    append_str(&mut v, a);
    append_str(&mut v, b);
    string_of(v.as_slice())
}

fn concat3(a: &str, b: &str, c: &str) -> (r: String)
    ensures
        r@ == a@ + b@ + c@,
{
    let mut v: Vec<char> = Vec::new();
    append_str(&mut v, a);
    append_str(&mut v, b);
    append_str(&mut v, c);
    string_of(v.as_slice())
}

fn info_line(text: String) -> (l: ConfigReportLine)
    ensures
        report_line_view(l) == info(text@),
{
    ConfigReportLine::Message(OutcomeMessageKind::Info, text)
}

/// The report of the config command for a result (see `config_report_spec`).
pub fn config_report(result: ConfigPlatformResult) -> (r: (Vec<ConfigReportLine>, AppStatus))
    ensures
        r.0@.map_values(|l: ConfigReportLine| report_line_view(l)) == config_report_spec(result).0,
        r.1 == config_report_spec(result).1,
{
    let ghost spec = config_report_spec(result);
    let mut lines: Vec<ConfigReportLine> = Vec::new();
    let mut status = AppStatus::Success;
    match result {
        ConfigPlatformResult::AuthTokenInfo { base_url, user_info } => {
            lines.push(info_line(concat2("► Token stored for: ", base_url.as_str())));
            let mut v: Vec<char> = Vec::new();
            append_str(&mut v, "► User: ");
            append_str(&mut v, user_info.first_name.as_str());
            append_str(&mut v, " ");
            append_str(&mut v, user_info.last_name.as_str());
            lines.push(info_line(string_of(v.as_slice())));
            let email = match &user_info.email {
                Some(e) => concat2("► Email: ", e.as_str()),
                None => concat2("► Email: ", "N/A"),
            };
            lines.push(info_line(email));
            lines.push(info_line(concat2("► Username: ", user_info.user_name.as_str())));
            assert(lines@.map_values(|l: ConfigReportLine| report_line_view(l)) =~= spec.0);
        },
        ConfigPlatformResult::AuthTokenRemoved { base_url } => {
            lines.push(ConfigReportLine::Message(
                OutcomeMessageKind::Success,
                concat2("Token removed for ", base_url.as_str()),
            ));
            assert(lines@.map_values(|l: ConfigReportLine| report_line_view(l)) =~= spec.0);
        },
        ConfigPlatformResult::CryptoSecretStored { base_url } => {
            lines.push(info_line(concat3("► Encryption secret securely stored for ", base_url.as_str(), ".")));
            assert(lines@.map_values(|l: ConfigReportLine| report_line_view(l)) =~= spec.0);
        },
        ConfigPlatformResult::CryptoSecretRemoved { base_url } => {
            lines.push(ConfigReportLine::Message(
                OutcomeMessageKind::Success,
                concat3("Encryption secret removed for ", base_url.as_str(), "."),
            ));
            assert(lines@.map_values(|l: ConfigReportLine| report_line_view(l)) =~= spec.0);
        },
        ConfigPlatformResult::SystemInfo { base_url, system_info } => {
            lines.push(info_line(concat2("► System info for: ", base_url.as_str())));
            lines.push(info_line(concat2("► Customer: ", system_info.customer.name.as_str())));
            lines.push(ConfigReportLine::SpaceUsage {
                used: system_info.customer.space_used,
                limit: system_info.customer.space_limit,
            });
            lines.push(ConfigReportLine::AccountUsage {
                used: system_info.customer.accounts_used,
                limit: system_info.customer.accounts_limit,
            });
            let ghost head = lines@.map_values(|l: ConfigReportLine| report_line_view(l));
            let ghost oidc_part = if system_info.oidc_configs@.len() > 0 {
                seq![info("\n► OpenID Connect IDP configurations:"@)] + system_info.oidc_configs@.map_values(
                    |c: OpenIdConfigInfo| oidc_line(c),
                )
            } else {
                seq![info("\n► No OpenID Connect IDP configurations found."@)]
            };
            let ghost ad_part = if system_info.ad_configs@.len() > 0 {
                seq![info("\n► Active Directory configurations:"@)] + system_info.ad_configs@.map_values(
                    |c: ActiveDirectoryConfigInfo| ad_line(c),
                )
            } else {
                seq![info("\n► No Active Directory configurations found."@)]
            };
            assert(idp_lines(system_info) == oidc_part + ad_part);
            assert(spec.0 == head + (oidc_part + ad_part));
            if system_info.oidc_configs.len() > 0 {
                lines.push(info_line("\n► OpenID Connect IDP configurations:".to_owned()));
                let mut i: usize = 0;
                let ghost start = lines@.map_values(|l: ConfigReportLine| report_line_view(l));
                while i < system_info.oidc_configs.len()
                    invariant
                        i <= system_info.oidc_configs.len(),
                        lines@.map_values(|l: ConfigReportLine| report_line_view(l)) == start
                            + system_info.oidc_configs@.subrange(0, i as int).map_values(
                            |c: OpenIdConfigInfo| oidc_line(c),
                        ),
                    decreases system_info.oidc_configs.len() - i,
                {
                    let c = &system_info.oidc_configs[i];
                    let mut v: Vec<char> = Vec::new();
                    append_str(&mut v, "► ");
                    append_str(&mut v, c.name.as_str());
                    append_str(&mut v, " (");
                    append_str(&mut v, u64_to_string(c.id).as_str());
                    append_str(&mut v, ")");
                    let ghost before = lines@;
                    lines.push(info_line(string_of(v.as_slice())));
                    assert(lines@.map_values(|l: ConfigReportLine| report_line_view(l)) =~= before.map_values(
                        |l: ConfigReportLine| report_line_view(l),
                    ).push(oidc_line(system_info.oidc_configs@[i as int])));
                    assert(system_info.oidc_configs@.subrange(0, i + 1).map_values(
                        |c: OpenIdConfigInfo| oidc_line(c),
                    ) =~= system_info.oidc_configs@.subrange(0, i as int).map_values(
                        |c: OpenIdConfigInfo| oidc_line(c),
                    ).push(oidc_line(system_info.oidc_configs@[i as int])));
                    i = i + 1;
                }
                assert(system_info.oidc_configs@.subrange(0, system_info.oidc_configs@.len() as int)
                    =~= system_info.oidc_configs@);
            } else {
                lines.push(info_line("\n► No OpenID Connect IDP configurations found.".to_owned()));
            }
            assert(lines@.map_values(|l: ConfigReportLine| report_line_view(l)) =~= head + oidc_part);
            if system_info.ad_configs.len() > 0 {
                lines.push(info_line("\n► Active Directory configurations:".to_owned()));
                let mut i: usize = 0;
                let ghost start = lines@.map_values(|l: ConfigReportLine| report_line_view(l));
                while i < system_info.ad_configs.len()
                    invariant
                        i <= system_info.ad_configs.len(),
                        lines@.map_values(|l: ConfigReportLine| report_line_view(l)) == start
                            + system_info.ad_configs@.subrange(0, i as int).map_values(
                            |c: ActiveDirectoryConfigInfo| ad_line(c),
                        ),
                    decreases system_info.ad_configs.len() - i,
                {
                    let c = &system_info.ad_configs[i];
                    let mut v: Vec<char> = Vec::new();
                    append_str(&mut v, "► ");
                    append_str(&mut v, c.alias.as_str());
                    append_str(&mut v, " (");
                    append_str(&mut v, u64_to_string(c.id).as_str());
                    append_str(&mut v, ")");
                    let ghost before = lines@;
                    lines.push(info_line(string_of(v.as_slice())));
                    assert(lines@.map_values(|l: ConfigReportLine| report_line_view(l)) =~= before.map_values(
                        |l: ConfigReportLine| report_line_view(l),
                    ).push(ad_line(system_info.ad_configs@[i as int])));
                    assert(system_info.ad_configs@.subrange(0, i + 1).map_values(
                        |c: ActiveDirectoryConfigInfo| ad_line(c),
                    ) =~= system_info.ad_configs@.subrange(0, i as int).map_values(
                        |c: ActiveDirectoryConfigInfo| ad_line(c),
                    ).push(ad_line(system_info.ad_configs@[i as int])));
                    i = i + 1;
                }
                assert(system_info.ad_configs@.subrange(0, system_info.ad_configs@.len() as int)
                    =~= system_info.ad_configs@);
            } else {
                lines.push(info_line("\n► No Active Directory configurations found.".to_owned()));
            }
            assert(lines@.map_values(|l: ConfigReportLine| report_line_view(l)) =~= head + oidc_part + ad_part);
            assert(head + oidc_part + ad_part =~= head + (oidc_part + ad_part));
        },
        ConfigPlatformResult::MissingToken { base_url } => {
            lines.push(ConfigReportLine::Message(
                OutcomeMessageKind::Error,
                concat3("No token found for this DRACOON url: ", base_url.as_str(), "."),
            ));
            assert(lines@.map_values(|l: ConfigReportLine| report_line_view(l)) =~= spec.0);
            status = AppStatus::Failure;
        },
        ConfigPlatformResult::MissingCryptoSecret => {
            lines.push(ConfigReportLine::Message(
                OutcomeMessageKind::Error,
                "No encryption secret found.".to_owned(),
            ));
            assert(lines@.map_values(|l: ConfigReportLine| report_line_view(l)) =~= spec.0);
            status = AppStatus::Failure;
        },
    }
    (lines, status)
}

} // verus!
