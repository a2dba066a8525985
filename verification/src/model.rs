//! Plain data types of the dashboard: screens, service status, jails,
//! operations, loading-modal state, and privilege classification.

use vstd::prelude::*;
use vstd::string::StringExecFns;

verus! {

/// The screens of the dashboard.
#[derive(Debug, Clone, Copy, PartialEq, Eq, Structural)]
pub enum Screen {
    Dashboard,
    Configuration,
    Logs,
    Whitelist,
    Settings,
    Help,
    About,
    JailEditor,
}

/// Title of a screen.
pub open spec fn spec_screen_title(s: Screen) -> Seq<char> {
    match s {
        Screen::Dashboard => "Dashboard"@,
        Screen::Configuration => "Configuration"@,
        Screen::Logs => "Logs"@,
        Screen::Whitelist => "Whitelist"@,
        Screen::Settings => "Settings"@,
        Screen::Help => "Help"@,
        Screen::About => "About"@,
        Screen::JailEditor => "Jail Editor"@,
    }
}

impl Screen {
    /// Title shown in the header for this screen.
    pub fn title(&self) -> (r: &'static str)
        ensures
            r@ == spec_screen_title(*self),
    {
        match self {
            Screen::Dashboard => "Dashboard",
            Screen::Configuration => "Configuration",
            Screen::Logs => "Logs",
            Screen::Whitelist => "Whitelist",
            Screen::Settings => "Settings",
            Screen::Help => "Help",
            Screen::About => "About",
            Screen::JailEditor => "Jail Editor",
        }
    }
}

/// Which dashboard pane holds the focus.
#[derive(Debug, Clone, Copy, PartialEq, Eq, Structural)]
pub enum DashboardFocus {
    Jails,
    BannedIPs,
}

/// Default focus is the jail pane.
impl Default for DashboardFocus {
    fn default() -> (r: Self)
        ensures
            r == DashboardFocus::Jails,
    {
        DashboardFocus::Jails
    }
}

/// Reported state of the daemon's service unit.
#[derive(Debug, Clone, Copy, PartialEq, Eq, Structural)]
pub enum ServiceStatus {
    Running,
    Stopped,
    Failed,
    Unknown,
}

/// Status glyph for display.
pub open spec fn spec_status_symbol(s: ServiceStatus) -> Seq<char> {
    match s {
        ServiceStatus::Running => "●"@,
        ServiceStatus::Stopped => "○"@,
        ServiceStatus::Failed => "✖"@,
        ServiceStatus::Unknown => "?"@,
    }
}

impl ServiceStatus {
    /// Glyph shown next to the service name.
    pub fn symbol(&self) -> (r: &'static str)
        ensures
            r@ == spec_status_symbol(*self),
    {
        match self {
            ServiceStatus::Running => "●",
            ServiceStatus::Stopped => "○",
            ServiceStatus::Failed => "✖",
            ServiceStatus::Unknown => "?",
        }
    }

    /// Whether the daemon is reported running.
    pub fn is_running(&self) -> (r: bool)
        ensures
            r == (*self == ServiceStatus::Running),
    {
        matches!(self, ServiceStatus::Running)
    }
}

/// An action the operator can ask of the service unit.
#[derive(Debug, Clone, Copy, PartialEq, Eq, Structural)]
pub enum ServiceAction {
    Start,
    Stop,
    Restart,
    Reload,
}

/// One jail as the daemon reports it.
#[derive(Debug, Clone)]
pub struct JailState {
    pub name: String,
    pub enabled: bool,
    pub banned_count: usize,
    pub filter: String,
    pub action: String,
}

/// Mathematical image of a [`JailState`].
pub ghost struct JailStateView {
    pub name: Seq<char>,
    pub enabled: bool,
    pub banned_count: int,
    pub filter: Seq<char>,
    pub action: Seq<char>,
}

impl View for JailState {
    type V = JailStateView;

    open spec fn view(&self) -> JailStateView {
        JailStateView {
            name: self.name@,
            enabled: self.enabled,
            banned_count: self.banned_count as int,
            filter: self.filter@,
            action: self.action@,
        }
    }
}

/// Views of a sequence of jails.
pub open spec fn jail_views(s: Seq<JailState>) -> Seq<JailStateView> {
    s.map_values(|j: JailState| j@)
}

impl JailState {
    /// Field-for-field copy.
    pub fn duplicate(&self) -> (r: Self)
        ensures
            r == *self,
    {
        JailState {
            name: self.name.clone(),
            enabled: self.enabled,
            banned_count: self.banned_count,
            filter: self.filter.clone(),
            action: self.action.clone(),
        }
    }
}

/// One jail as configured on disk.
#[derive(Debug, Clone)]
pub struct JailConfig {
    pub name: String,
    pub enabled: bool,
    pub filter: String,
    pub port: String,
    pub protocol: String,
    pub log_path: String,
    pub max_retry: i32,
    pub find_time: String,
    pub ban_time: String,
    pub action: String,
}

/// Mathematical image of a [`JailConfig`].
pub ghost struct JailConfigView {
    pub name: Seq<char>,
    pub enabled: bool,
    pub filter: Seq<char>,
    pub port: Seq<char>,
    pub protocol: Seq<char>,
    pub log_path: Seq<char>,
    pub max_retry: int,
    pub find_time: Seq<char>,
    pub ban_time: Seq<char>,
    pub action: Seq<char>,
}

impl View for JailConfig {
    type V = JailConfigView;

    open spec fn view(&self) -> JailConfigView {
        JailConfigView {
            name: self.name@,
            enabled: self.enabled,
            filter: self.filter@,
            port: self.port@,
            protocol: self.protocol@,
            log_path: self.log_path@,
            max_retry: self.max_retry as int,
            find_time: self.find_time@,
            ban_time: self.ban_time@,
            action: self.action@,
        }
    }
}

/// Views of a sequence of configured jails.
pub open spec fn jail_config_views(s: Seq<JailConfig>) -> Seq<JailConfigView> {
    s.map_values(|j: JailConfig| j@)
}

/// One editable configuration file shown on the configuration screen.
#[derive(Debug, Clone)]
pub struct ConfigFile {
    pub path: String,
    pub description: String,
    pub exists: bool,
    pub editable: bool,
}

/// Interface state of the address-management dialogs.
#[derive(Debug, Clone)]
pub struct IpManagementState {
    pub ban_dialog_open: bool,
    pub ban_ip_input: String,
    pub selected_jail_for_ban: Option<String>,
    pub ban_dialog_field_index: usize,
    pub selected_banned_ip_index: usize,
    pub unban_confirmation_open: bool,
    pub ip_to_unban: Option<String>,
    pub jail_for_unban: Option<String>,
    pub whitelist_dialog_open: bool,
    pub whitelist_ip_input: String,
    pub selected_whitelist_index: usize,
}

/// All dialogs closed, all inputs empty.
impl Default for IpManagementState {
    fn default() -> (r: Self)
        ensures
            !r.ban_dialog_open,
            !r.unban_confirmation_open,
            !r.whitelist_dialog_open,
            r.ban_dialog_field_index == 0,
            r.selected_banned_ip_index == 0,
            r.selected_whitelist_index == 0,
    {
        IpManagementState {
            ban_dialog_open: false,
            ban_ip_input: String::new(),
            selected_jail_for_ban: None,
            ban_dialog_field_index: 0,
            selected_banned_ip_index: 0,
            unban_confirmation_open: false,
            ip_to_unban: None,
            jail_for_unban: None,
            whitelist_dialog_open: false,
            whitelist_ip_input: String::new(),
            selected_whitelist_index: 0,
        }
    }
}

/// Interface state of the jail editor.
#[derive(Debug, Clone)]
pub struct JailEditorState {
    pub is_open: bool,
    pub jail_name: String,
    pub original_content: String,
    pub current_content: String,
    pub backup_path: Option<String>,
    pub cursor_position: usize,
    pub scroll_offset: usize,
    pub modified: bool,
}

/// Editor closed, buffers empty.
impl Default for JailEditorState {
    fn default() -> (r: Self)
        ensures
            !r.is_open,
            !r.modified,
            r.cursor_position == 0,
            r.scroll_offset == 0,
    {
        JailEditorState {
            is_open: false,
            jail_name: String::new(),
            original_content: String::new(),
            current_content: String::new(),
            backup_path: None,
            cursor_position: 0,
            scroll_offset: 0,
            modified: false,
        }
    }
}

/// State of the full-screen loading modal shown while the banned-address
/// fetch is in flight.
#[derive(Debug, Clone)]
pub struct LoadingModalState {
    pub title: String,
    pub message: String,
    /// Progress percentage, 0 to 100, when one is known.
    pub progress: Option<u8>,
    /// When the modal appeared, in milliseconds since the Unix epoch.
    pub started_at_ms: i64,
    /// Animation suffix: zero to three dots, advancing every half second.
    pub animated_dots: String,
}

impl LoadingModalState {
    /// A fresh modal with no progress figure and no dots, stamped with the
    /// instant it appeared.
    pub fn new(title: String, message: String, now_ms: i64) -> (r: Self)
        ensures
            r.title@ == title@,
            r.message@ == message@,
            r.progress is None,
            r.started_at_ms == now_ms,
            r.animated_dots@ == Seq::<char>::empty(),
    {
        LoadingModalState {
            title,
            message,
            progress: None,
            started_at_ms: now_ms,
            animated_dots: String::new(),
        }
    }

    /// The same modal carrying a progress percentage.
    pub fn with_progress(self, progress: u8) -> (r: Self)
        ensures
            r.progress == Some(progress),
            r.title@ == self.title@,
            r.message@ == self.message@,
            r.started_at_ms == self.started_at_ms,
            r.animated_dots@ == self.animated_dots@,
    {
        LoadingModalState { progress: Some(progress), ..self }
    }

    /// Replaces the message.
    pub fn update_message(&mut self, message: String)
        ensures
            final(self).message@ == message@,
            final(self).title@ == old(self).title@,
            final(self).progress == old(self).progress,
            final(self).started_at_ms == old(self).started_at_ms,
            final(self).animated_dots@ == old(self).animated_dots@,
    {
        self.message = message;
    }

    /// Advances the dot animation: the dot count cycles 0 to 3, stepping
    /// every 500 milliseconds since the modal appeared.
    pub fn update_animated_dots(&mut self, now_ms: i64)
        ensures
            final(self).title@ == old(self).title@,
            final(self).message@ == old(self).message@,
            final(self).progress == old(self).progress,
            final(self).started_at_ms == old(self).started_at_ms,
            ({
                let elapsed = if now_ms >= old(self).started_at_ms {
                    now_ms - old(self).started_at_ms
                } else {
                    0int
                };
                let count = (elapsed / 500) % 4;
                &&& (count == 0 ==> final(self).animated_dots@ == ""@)
                &&& (count == 1 ==> final(self).animated_dots@ == "."@)
                &&& (count == 2 ==> final(self).animated_dots@ == ".."@)
                &&& (count == 3 ==> final(self).animated_dots@ == "..."@)
            }),
    {
        let elapsed: u64 = if now_ms >= self.started_at_ms {
            ((now_ms as i128) - (self.started_at_ms as i128)) as u64
        } else {
            0
        };
        let count: u64 = (elapsed / 500) % 4;
        self.animated_dots = if count == 0 {
            String::from_str("")
        } else if count == 1 {
            String::from_str(".")
        } else if count == 2 {
            String::from_str("..")
        } else {
            String::from_str("...")
        };
    }
}

/// The long-running operations whose progress the dashboard displays.
#[derive(Debug, Clone, Copy, PartialEq, Eq, Structural)]
pub enum OperationType {
    ServiceRestart,
    ServiceStart,
    ServiceStop,
    ServiceReload,
    LogRefresh,
    DataRefresh,
    IpBan,
    IpUnban,
}

/// Display name of an operation.
pub open spec fn spec_operation_name(t: OperationType) -> Seq<char> {
    match t {
        OperationType::ServiceRestart => "Restarting fail2ban service"@,
        OperationType::ServiceStart => "Starting fail2ban service"@,
        OperationType::ServiceStop => "Stopping fail2ban service"@,
        OperationType::ServiceReload => "Reloading configuration"@,
        OperationType::LogRefresh => "Refreshing logs"@,
        OperationType::DataRefresh => "Refreshing data"@,
        OperationType::IpBan => "Banning IP address"@,
        OperationType::IpUnban => "Unbanning IP address"@,
    }
}

/// Expected duration of an operation in milliseconds.
pub open spec fn spec_operation_duration_ms(t: OperationType) -> int {
    match t {
        OperationType::ServiceRestart => 5000,
        OperationType::ServiceStart => 3000,
        OperationType::ServiceStop => 2000,
        OperationType::ServiceReload => 2000,
        OperationType::LogRefresh => 500,
        OperationType::DataRefresh => 1000,
        OperationType::IpBan => 300,
        OperationType::IpUnban => 300,
    }
}

impl OperationType {
    /// Name shown while the operation runs.
    pub fn display_name(&self) -> (r: &'static str)
        ensures
            r@ == spec_operation_name(*self),
    {
        match self {
            OperationType::ServiceRestart => "Restarting fail2ban service",
            OperationType::ServiceStart => "Starting fail2ban service",
            OperationType::ServiceStop => "Stopping fail2ban service",
            OperationType::ServiceReload => "Reloading configuration",
            OperationType::LogRefresh => "Refreshing logs",
            OperationType::DataRefresh => "Refreshing data",
            OperationType::IpBan => "Banning IP address",
            OperationType::IpUnban => "Unbanning IP address",
        }
    }

    /// How long the operation is expected to take, in milliseconds.
    pub fn estimated_duration(&self) -> (r: u64)
        ensures
            r == spec_operation_duration_ms(*self),
    {
        match self {
            OperationType::ServiceRestart => 5000,
            OperationType::ServiceStart => 3000,
            OperationType::ServiceStop => 2000,
            OperationType::ServiceReload => 2000,
            OperationType::LogRefresh => 500,
            OperationType::DataRefresh => 1000,
            OperationType::IpBan => 300,
            OperationType::IpUnban => 300,
        }
    }
}

/// Progress of a long-running operation.
#[derive(Debug, Clone)]
pub struct OperationProgress {
    pub operation_type: OperationType,
    /// 0 to 100.
    pub progress_percent: u8,
    pub status_text: String,
    /// When the operation began, in milliseconds since the Unix epoch.
    pub started_at_ms: i64,
    /// Expected completion instant, when one is known.
    pub estimated_completion_ms: Option<i64>,
}

/// How the process is privileged.
#[derive(Debug, Clone, Copy, PartialEq, Eq, Structural)]
pub enum PrivilegeStatus {
    Root,
    Sudo,
    User,
}

/// Classifies the process's privileges: root when either the real or the
/// effective user is root, sudo when invoked under sudo, else a regular
/// user.
pub fn classify_privileges(uid_is_root: bool, euid_is_root: bool, under_sudo: bool) -> (r:
    PrivilegeStatus)
    ensures
        (uid_is_root || euid_is_root) ==> r == PrivilegeStatus::Root,
        (!uid_is_root && !euid_is_root && under_sudo) ==> r == PrivilegeStatus::Sudo,
        (!uid_is_root && !euid_is_root && !under_sudo) ==> r == PrivilegeStatus::User,
{
    if uid_is_root || euid_is_root {
        PrivilegeStatus::Root
    } else if under_sudo {
        PrivilegeStatus::Sudo
    } else {
        PrivilegeStatus::User
    }
}

/// Handle on one service unit, by name. The process invocation that drives
/// it lives outside the library; the library interprets what it reports.
pub struct SystemService {
    pub service_name: String,
}

/// The status a unit-state word names.
pub open spec fn spec_status_of_word(s: Seq<char>) -> ServiceStatus {
    if s == "active"@ {
        ServiceStatus::Running
    } else if s == "inactive"@ {
        ServiceStatus::Stopped
    } else if s == "failed"@ {
        ServiceStatus::Failed
    } else {
        ServiceStatus::Unknown
    }
}

impl SystemService {
    /// A handle on the unit of the given name.
    pub fn new(service_name: &str) -> (r: Self)
        ensures
            r.service_name@ == service_name@,
    {
        SystemService { service_name: String::from_str(service_name) }
    }

    /// Interprets a unit-state word as reported by the service manager:
    /// `active`, `inactive` and `failed` map to their statuses, anything
    /// else is unknown.
    pub fn status_of_word(word: &str) -> (r: ServiceStatus)
        ensures
            r == spec_status_of_word(word@),
    {
        if crate::text::str_cmp(word, "active") == 0 {
            proof {
                crate::text::lemma_chars_cmp_eq(word@, "active"@);
            }
            ServiceStatus::Running
        } else if crate::text::str_cmp(word, "inactive") == 0 {
            proof {
                crate::text::lemma_chars_cmp_eq(word@, "active"@);
                crate::text::lemma_chars_cmp_eq(word@, "inactive"@);
            }
            ServiceStatus::Stopped
        } else if crate::text::str_cmp(word, "failed") == 0 {
            proof {
                crate::text::lemma_chars_cmp_eq(word@, "active"@);
                crate::text::lemma_chars_cmp_eq(word@, "inactive"@);
                crate::text::lemma_chars_cmp_eq(word@, "failed"@);
            }
            ServiceStatus::Failed
        } else {
            proof {
                crate::text::lemma_chars_cmp_eq(word@, "active"@);
                crate::text::lemma_chars_cmp_eq(word@, "inactive"@);
                crate::text::lemma_chars_cmp_eq(word@, "failed"@);
            }
            ServiceStatus::Unknown
        }
    }
}

} // verus!
