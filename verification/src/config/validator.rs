//! Checking a configuration for mistakes and risky settings. Each finding is a line of text
//! that starts with its severity: `[X]` an error, `[!]` a warning, `[i]` a note and `[*]`
//! a recommendation.
use vstd::prelude::*;
use crate::config::defaults::available_cpus;
use crate::config::types::WafMode;
use crate::config::Config;
use crate::deployment::ab_test::string_views;
use crate::error::{framed_message, prefixed_message};
use crate::text::{decimal, decimal_string};

verus! {

broadcast use vstd::string::group_string_axioms;

/// What is known of the files and directories a configuration names. Fields about a path
/// the configuration does not name are not read.
#[derive(Debug, Clone, Copy)]
pub struct PathChecks {
    /// The embedded PHP library exists.
    pub libphp_exists: bool,
    /// The document root exists.
    pub document_root_exists: bool,
    /// The WAF rules file exists.
    pub rules_exist: bool,
    /// The directory holding the admin socket exists.
    pub socket_dir_exists: bool,
}

/// The directory part of a path, as `std::path::Path::parent` gives it.
pub uninterp spec fn path_parent(path: Seq<char>) -> Option<Seq<char>>;

/// `std::path::Path::parent`: the path without its last component, or nothing for a root
/// or an empty path. The result is named by `path_parent`; nothing more is claimed.
#[verifier::external_body]
pub(crate) fn parent_path(path: &str) -> (r: Option<String>)
    ensures
        match r {
            Some(p) => path_parent(path@) == Some(p@),
            None => path_parent(path@) is None,
        },
{
    std::path::Path::new(path).parent().map(|p| p.to_string_lossy().into_owned())
}

/// `m` when `c` holds, nothing otherwise.
pub open spec fn when(c: bool, m: Seq<char>) -> Seq<Seq<char>> {
    if c {
        seq![m]
    } else {
        Seq::empty()
    }
}

/// Findings about the listening port and the worker count, for a machine with `cpus` CPUs.
pub open spec fn server_findings(config: Config, cpus: usize) -> Seq<Seq<char>> {
    when(
        config.server.port < 1024,
        "[!] Port "@ + decimal(config.server.port as nat) + " requires root privileges. Consider using a port >= 1024"@,
    ) + when(config.server.workers == 0, "[!] Worker count is 0. It will default to CPU count."@) + when(
        config.server.workers > cpus * 2,
        "[!] Worker count ("@ + decimal(config.server.workers as nat) + ") is more than 2x CPU cores ("@ + decimal(
            cpus as nat,
        ) + "). This may cause performance degradation."@,
    )
}

/// Findings about which PHP backends can run.
pub open spec fn backend_findings(config: Config, checks: PathChecks) -> Seq<Seq<char>> {
    let no_fpm = config.php.fpm_socket@.len() == 0;
    if config.backend.enable_hybrid {
        when(
            !checks.libphp_exists,
            "[i] libphp.so not found at: "@ + config.php.libphp_path@
                + ". Embedded backend will not be available (FastCGI/Static only mode)"@,
        ) + when(
            no_fpm,
            "[i] fpm_socket not configured. FastCGI backend will not be available (Embedded/Static only mode)"@,
        ) + when(
            !checks.libphp_exists && no_fpm && !config.backend.static_files.enable,
            "[X] Hybrid mode enabled but no backends available. Configure at least one: libphp_path, fpm_socket, or static_files"@,
        )
    } else if config.php.use_fpm {
        when(no_fpm, "[X] PHP-FPM mode enabled but fpm_socket is not configured"@)
    } else {
        when(!checks.libphp_exists, "[X] libphp.so not found at: "@ + config.php.libphp_path@)
    }
}

/// Findings about the document root and the PHP workers.
pub open spec fn php_findings(config: Config, checks: PathChecks) -> Seq<Seq<char>> {
    when(!checks.document_root_exists, "[X] Document root not found: "@ + config.php.document_root@) + when(
        config.php.worker_pool_size == 0,
        "[X] PHP worker pool size cannot be 0"@,
    ) + when(config.php.worker_max_requests == 0, "[!] Worker max requests is 0. Workers will never restart."@)
}

/// The accepted log levels.
pub open spec fn valid_log_level(level: Seq<char>) -> bool {
    level == "trace"@ || level == "debug"@ || level == "info"@ || level == "warn"@ || level == "error"@
}

/// The accepted log formats.
pub open spec fn valid_log_format(format: Seq<char>) -> bool {
    format == "json"@ || format == "pretty"@
}

/// Findings about the log level and format.
pub open spec fn logging_findings(config: Config) -> Seq<Seq<char>> {
    when(
        !valid_log_level(config.logging.level@),
        "[X] Invalid log level: "@ + config.logging.level@ + ". Must be one of: trace, debug, info, warn, error"@,
    ) + when(
        !valid_log_format(config.logging.format@),
        "[X] Invalid log format: "@ + config.logging.format@ + ". Must be 'json' or 'pretty'"@,
    )
}

/// Findings about the web application firewall, when it is on.
pub open spec fn waf_findings(config: Config, checks: PathChecks) -> Seq<Seq<char>> {
    if config.waf.enable {
        (match config.waf.rules_path {
            Some(p) => when(!checks.rules_exist, "[X] WAF rules file not found: "@ + p@),
            None => Seq::empty(),
        }) + when(config.waf.rate_limit.requests_per_ip == 0, "[!] Rate limit is 0. Rate limiting will be disabled."@)
    } else {
        Seq::empty()
    }
}

/// Findings about the admin interface, when it is on.
pub open spec fn admin_findings(config: Config, checks: PathChecks) -> Seq<Seq<char>> {
    if config.admin.enable {
        (match path_parent(config.admin.unix_socket@) {
            Some(d) => when(!checks.socket_dir_exists, "[!] Unix socket directory does not exist: "@ + d),
            None => Seq::empty(),
        }) + when(config.admin.http_port == config.server.port, "[X] Admin port conflicts with server port"@) + when(
            config.admin.http_port == config.metrics.port,
            "[X] Admin port conflicts with metrics port"@,
        )
    } else {
        Seq::empty()
    }
}

/// Findings about port clashes and production settings.
pub open spec fn production_findings(config: Config) -> Seq<Seq<char>> {
    when(config.metrics.port == config.server.port, "[X] Metrics port conflicts with server port"@) + when(
        config.php.opcache.enable && config.php.opcache.validate_timestamps,
        "[*] Recommendation: Disable opcache.validate_timestamps in production for better performance"@,
    ) + when(
        config.logging.level@ == "debug"@ || config.logging.level@ == "trace"@,
        "[*] Recommendation: Use 'info' or 'warn' log level in production"@,
    ) + when(
        config.waf.enable && config.waf.mode == WafMode::Off,
        "[*] WAF is enabled but mode is 'off'. Consider using 'learn', 'detect', or 'block'"@,
    )
}

/// Every finding about `config`, in order, on a machine with `cpus` CPUs.
pub open spec fn config_findings(config: Config, checks: PathChecks, cpus: usize) -> Seq<Seq<char>> {
    server_findings(config, cpus) + backend_findings(config, checks) + php_findings(config, checks)
        + logging_findings(config) + waf_findings(config, checks) + admin_findings(config, checks)
        + production_findings(config)
}

/// Appends `m` to `out` when `c` holds.
fn push_when(out: &mut Vec<String>, c: bool, m: String)
    ensures
        string_views(final(out)@) == string_views(old(out)@) + when(c, m@),
{
    let ghost before = out@;
    if c {
        out.push(m);
        assert(string_views(out@) =~= string_views(before) + seq![m@]) by {
            assert(out@ == before.push(out@.last()));
        }
    } else {
        assert(string_views(out@) =~= string_views(before) + Seq::<Seq<char>>::empty());
    }
}

/// `s` is one of the `names`.
fn is_one_of(s: &String, names: &[&str]) -> (r: bool)
    ensures
        r == exists|i: int| 0 <= i < names@.len() && names@[i]@ == s@,
{
    let mut i: usize = 0;
    while i < names.len()
        invariant
            i <= names@.len(),
            forall|j: int| 0 <= j < i ==> names@[j]@ != s@,
        decreases names@.len() - i,
    {
        if *s == names[i].to_string() {
            return true;
        }
        i += 1;
    }
    false
}

/// Appends every string of `more` to `out`.
fn append_all(out: &mut Vec<String>, more: Vec<String>)
    ensures
        string_views(final(out)@) == string_views(old(out)@) + string_views(more@),
{
    let mut more = more;
    let ghost before = out@;
    let ghost extra = more@;
    out.append(&mut more);
    assert(string_views(out@) =~= string_views(before) + string_views(extra));
}

/// Findings about the listening port and the worker count, for a machine with `cpus` CPUs.
pub fn server_findings_for(config: &Config, cpus: usize) -> (r: Vec<String>)
    ensures
        string_views(r@) == server_findings(*config, cpus),
{
    let mut out: Vec<String> = Vec::new();
    assert(string_views(out@) =~= Seq::<Seq<char>>::empty());
    let port = config.server.port;
    push_when(
        &mut out,
        port < 1024,
        framed_message(
            "[!] Port ",
            decimal_string(port as u64).as_str(),
            " requires root privileges. Consider using a port >= 1024",
        ),
    );
    push_when(&mut out, config.server.workers == 0, "[!] Worker count is 0. It will default to CPU count.".to_string());
    let workers = config.server.workers;
    let many = (workers as u128) > (cpus as u128) * 2;
    let m = framed_message("[!] Worker count (", decimal_string(workers as u64).as_str(), ") is more than 2x CPU cores (");
    let m = framed_message(m.as_str(), decimal_string(cpus as u64).as_str(), "). This may cause performance degradation.");
    push_when(&mut out, many, m);
    assert(string_views(out@) =~= server_findings(*config, cpus));
    out
}

/// Findings about which PHP backends can run.
pub fn backend_findings_for(config: &Config, checks: &PathChecks) -> (r: Vec<String>)
    ensures
        string_views(r@) == backend_findings(*config, *checks),
{
    let mut out: Vec<String> = Vec::new();
    assert(string_views(out@) =~= Seq::<Seq<char>>::empty());
    let no_fpm = config.php.fpm_socket.as_str().is_empty();
    if config.backend.enable_hybrid {
        push_when(
            &mut out,
            !checks.libphp_exists,
            framed_message(
                "[i] libphp.so not found at: ",
                config.php.libphp_path.as_str(),
                ". Embedded backend will not be available (FastCGI/Static only mode)",
            ),
        );
        push_when(
            &mut out,
            no_fpm,
            "[i] fpm_socket not configured. FastCGI backend will not be available (Embedded/Static only mode)".to_string(),
        );
        push_when(
            &mut out,
            !checks.libphp_exists && no_fpm && !config.backend.static_files.enable,
            "[X] Hybrid mode enabled but no backends available. Configure at least one: libphp_path, fpm_socket, or static_files".to_string(),
        );
    } else if config.php.use_fpm {
        push_when(&mut out, no_fpm, "[X] PHP-FPM mode enabled but fpm_socket is not configured".to_string());
    } else {
        push_when(
            &mut out,
            !checks.libphp_exists,
            prefixed_message("[X] libphp.so not found at: ", config.php.libphp_path.as_str()),
        );
    }
    assert(string_views(out@) =~= backend_findings(*config, *checks));
    out
}

/// Findings about the document root and the PHP workers.
pub fn php_findings_for(config: &Config, checks: &PathChecks) -> (r: Vec<String>)
    ensures
        string_views(r@) == php_findings(*config, *checks),
{
    let mut out: Vec<String> = Vec::new();
    assert(string_views(out@) =~= Seq::<Seq<char>>::empty());
    push_when(
        &mut out,
        !checks.document_root_exists,
        prefixed_message("[X] Document root not found: ", config.php.document_root.as_str()),
    );
    push_when(&mut out, config.php.worker_pool_size == 0, "[X] PHP worker pool size cannot be 0".to_string());
    push_when(
        &mut out,
        config.php.worker_max_requests == 0,
        "[!] Worker max requests is 0. Workers will never restart.".to_string(),
    );
    assert(string_views(out@) =~= php_findings(*config, *checks));
    out
}

/// Findings about the log level and format.
pub fn logging_findings_for(config: &Config) -> (r: Vec<String>)
    ensures
        string_views(r@) == logging_findings(*config),
{
    let mut out: Vec<String> = Vec::new();
    assert(string_views(out@) =~= Seq::<Seq<char>>::empty());
    let levels: [&str; 5] = ["trace", "debug", "info", "warn", "error"];
    let level_ok = is_one_of(&config.logging.level, &levels);
    proof {
        reveal_strlit("trace");
        reveal_strlit("debug");
        reveal_strlit("info");
        reveal_strlit("warn");
        reveal_strlit("error");
        assert(level_ok == valid_log_level(config.logging.level@)) by {
            if valid_log_level(config.logging.level@) {
                if config.logging.level@ == "trace"@ {
                    assert(levels@[0]@ == config.logging.level@);
                } else if config.logging.level@ == "debug"@ {
                    assert(levels@[1]@ == config.logging.level@);
                } else if config.logging.level@ == "info"@ {
                    assert(levels@[2]@ == config.logging.level@);
                } else if config.logging.level@ == "warn"@ {
                    assert(levels@[3]@ == config.logging.level@);
                } else {
                    assert(levels@[4]@ == config.logging.level@);
                }
            }
        }
    }
    push_when(
        &mut out,
        !level_ok,
        framed_message(
            "[X] Invalid log level: ",
            config.logging.level.as_str(),
            ". Must be one of: trace, debug, info, warn, error",
        ),
    );
    let formats: [&str; 2] = ["json", "pretty"];
    let format_ok = is_one_of(&config.logging.format, &formats);
    proof {
        reveal_strlit("json");
        reveal_strlit("pretty");
        assert(format_ok == valid_log_format(config.logging.format@)) by {
            if valid_log_format(config.logging.format@) {
                if config.logging.format@ == "json"@ {
                    assert(formats@[0]@ == config.logging.format@);
                } else {
                    assert(formats@[1]@ == config.logging.format@);
                }
            }
        }
    }
    push_when(
        &mut out,
        !format_ok,
        framed_message("[X] Invalid log format: ", config.logging.format.as_str(), ". Must be 'json' or 'pretty'"),
    );
    assert(string_views(out@) =~= logging_findings(*config));
    out
}

/// Findings about the web application firewall, when it is on.
pub fn waf_findings_for(config: &Config, checks: &PathChecks) -> (r: Vec<String>)
    ensures
        string_views(r@) == waf_findings(*config, *checks),
{
    let mut out: Vec<String> = Vec::new();
    assert(string_views(out@) =~= Seq::<Seq<char>>::empty());
    if config.waf.enable {
        match &config.waf.rules_path {
            Some(p) => {
                push_when(&mut out, !checks.rules_exist, prefixed_message("[X] WAF rules file not found: ", p.as_str()));
            },
            None => {},
        }
        push_when(
            &mut out,
            config.waf.rate_limit.requests_per_ip == 0,
            "[!] Rate limit is 0. Rate limiting will be disabled.".to_string(),
        );
    }
    assert(string_views(out@) =~= waf_findings(*config, *checks));
    out
}

/// Findings about the admin interface, when it is on.
pub fn admin_findings_for(config: &Config, checks: &PathChecks) -> (r: Vec<String>)
    ensures
        string_views(r@) == admin_findings(*config, *checks),
{
    let mut out: Vec<String> = Vec::new();
    assert(string_views(out@) =~= Seq::<Seq<char>>::empty());
    if config.admin.enable {
        match parent_path(config.admin.unix_socket.as_str()) {
            Some(d) => {
                push_when(
                    &mut out,
                    !checks.socket_dir_exists,
                    prefixed_message("[!] Unix socket directory does not exist: ", d.as_str()),
                );
            },
            None => {},
        }
        push_when(
            &mut out,
            config.admin.http_port == config.server.port,
            "[X] Admin port conflicts with server port".to_string(),
        );
        push_when(
            &mut out,
            config.admin.http_port == config.metrics.port,
            "[X] Admin port conflicts with metrics port".to_string(),
        );
    }
    assert(string_views(out@) =~= admin_findings(*config, *checks));
    out
}

/// Findings about port clashes and production settings.
pub fn production_findings_for(config: &Config) -> (r: Vec<String>)
    ensures
        string_views(r@) == production_findings(*config),
{
    let mut out: Vec<String> = Vec::new();
    assert(string_views(out@) =~= Seq::<Seq<char>>::empty());
    push_when(
        &mut out,
        config.metrics.port == config.server.port,
        "[X] Metrics port conflicts with server port".to_string(),
    );
    push_when(
        &mut out,
        config.php.opcache.enable && config.php.opcache.validate_timestamps,
        "[*] Recommendation: Disable opcache.validate_timestamps in production for better performance".to_string(),
    );
    let noisy = config.logging.level == "debug".to_string() || config.logging.level == "trace".to_string();
    push_when(&mut out, noisy, "[*] Recommendation: Use 'info' or 'warn' log level in production".to_string());
    let waf_off = config.waf.enable && match config.waf.mode {
        WafMode::Off => true,
        _ => false,
    };
    push_when(
        &mut out,
        waf_off,
        "[*] WAF is enabled but mode is 'off'. Consider using 'learn', 'detect', or 'block'".to_string(),
    );
    assert(string_views(out@) =~= production_findings(*config));
    out
}

/// Every finding about `config`, in order, on a machine with `cpus` CPUs, where `checks`
/// tells which of the named files and directories exist.
pub fn config_findings_for(config: &Config, checks: &PathChecks, cpus: usize) -> (r: Vec<String>)
    ensures
        string_views(r@) == config_findings(*config, *checks, cpus),
{
    let mut out = server_findings_for(config, cpus);
    append_all(&mut out, backend_findings_for(config, checks));
    append_all(&mut out, php_findings_for(config, checks));
    append_all(&mut out, logging_findings_for(config));
    append_all(&mut out, waf_findings_for(config, checks));
    append_all(&mut out, admin_findings_for(config, checks));
    append_all(&mut out, production_findings_for(config));
    out
}

/// Checks `config` on this machine, where `checks` tells which of the named files and
/// directories exist. It never fails; the findings are those of `config_findings` for the
/// number of CPUs available here.
pub fn validate_config(config: &Config, checks: &PathChecks) -> (r: Result<Vec<String>, crate::error::ParseError>)
    ensures
        r matches Ok(w) && exists|cpus: usize| cpus >= 1 && string_views(w@) == config_findings(*config, *checks, cpus),
{
    let cpus = available_cpus();
    let w = config_findings_for(config, checks, cpus);
    Ok(w)
}

/// Worker-pool law: a configuration whose PHP worker pool size is 0 is always reported as an
/// error, whatever its other settings, the files present and the number of CPUs.
pub proof fn lemma_zero_worker_pool_reported(config: Config, checks: PathChecks, cpus: usize)
    requires
        config.php.worker_pool_size == 0,
    ensures
        config_findings(config, checks, cpus).contains("[X] PHP worker pool size cannot be 0"@),
{
    let pre = server_findings(config, cpus) + backend_findings(config, checks);
    let doc = when(!checks.document_root_exists, "[X] Document root not found: "@ + config.php.document_root@);
    let k = pre.len() + doc.len();
    assert(php_findings(config, checks)[doc.len() as int] == "[X] PHP worker pool size cannot be 0"@);
    assert(config_findings(config, checks, cpus)[k as int] == "[X] PHP worker pool size cannot be 0"@);
}

} // verus!
