//! Server selection and the startup banner.
use vstd::prelude::*;

use crate::config::Config;
use crate::text::{concat_str, push_char};

verus! {

/// Which servers run.
#[derive(Debug, Clone, Copy, PartialEq, Eq, Structural)]
pub enum ServerMode {
    Grpc,
    Http,
    Both,
}

/// The server mode a `--server` value names: `grpc`, `http` or `both`.
pub open spec fn server_mode_of(s: Seq<char>) -> Option<ServerMode> {
    if s == "grpc"@ {
        Some(ServerMode::Grpc)
    } else if s == "http"@ {
        Some(ServerMode::Http)
    } else if s == "both"@ {
        Some(ServerMode::Both)
    } else {
        None
    }
}

/// Reads a `--server` value; anything but `grpc`, `http` or `both` is refused.
pub fn parse_server_mode(s: &str) -> (r: Result<ServerMode, String>)
    ensures
        match server_mode_of(s@) {
            Some(m) => r == Ok::<ServerMode, String>(m),
            None => r matches Err(e) && e@ == "Invalid server type"@,
        },
{
    let v = crate::text::chars_of(s);
    let g = crate::text::chars_of("grpc");
    let h = crate::text::chars_of("http");
    let b = crate::text::chars_of("both");
    if crate::config::chars_equal(&v, &g) {
        Ok(ServerMode::Grpc)
    } else if crate::config::chars_equal(&v, &h) {
        Ok(ServerMode::Http)
    } else if crate::config::chars_equal(&v, &b) {
        Ok(ServerMode::Both)
    } else {
        Err(String::from_str("Invalid server type"))
    }
}

/// A rule of fifty `=`.
pub open spec fn rule() -> Seq<char> {
    Seq::new(50, |i: int| '=')
}

/// `true` or `false`, as `Display` writes a `bool`.
pub open spec fn bool_text(b: bool) -> Seq<char> {
    if b {
        "true"@
    } else {
        "false"@
    }
}

/// The lines naming the servers that run.
pub open spec fn server_lines(mode: ServerMode, grpc_enabled: bool, grpc_port: Seq<char>, http_port: Seq<char>) -> Seq<
    Seq<char>,
> {
    let grpc = seq!["gRPC Server:  localhost:"@ + grpc_port];
    let http = seq![
        "HTTP Server:  http://localhost:"@ + http_port,
        "Health Check: http://localhost:"@ + http_port + "/health"@,
    ];
    match mode {
        ServerMode::Grpc => grpc,
        ServerMode::Http => http,
        ServerMode::Both => if grpc_enabled {
            grpc + http
        } else {
            http
        },
    }
}

/// The banner printed once the servers are started.
pub open spec fn startup_info(c: Config, mode: ServerMode, grpc_enabled: bool) -> Seq<Seq<char>> {
    seq![Seq::empty(), rule(), "Browser Render Rust Server Started"@, rule()] + server_lines(
        mode,
        grpc_enabled,
        c.grpc_port@,
        c.http_port@,
    ) + seq![
        Seq::empty(),
        "Configuration:"@,
        "  Browser Mode: "@ + (if c.browser_headless {
            "Headless"@
        } else {
            "GUI"@
        }),
        "  Debug Mode:   "@ + bool_text(c.browser_debug),
        "  Database:     "@ + c.sqlite_path@,
        Seq::empty(),
        "Press Ctrl+C to stop the server"@,
        rule(),
        Seq::empty(),
    ]
}

fn rule_string() -> (s: String)
    ensures
        s@ == rule(),
{
    let mut s = String::new();
    let mut i: usize = 0;
    while i < 50
        invariant
            i <= 50,
            s@ == Seq::new(i as nat, |k: int| '='),
        decreases 50 - i,
    {
        push_char(&mut s, '=');
        assert(s@ =~= Seq::new((i + 1) as nat, |k: int| '='));
        i = i + 1;
    }
    s
}

fn push_line(lines: &mut Vec<String>, s: String)
    ensures
        final(lines)@ == old(lines)@.push(s),
{
    lines.push(s);
}

/// The banner printed once the servers are started, line by line.
pub fn startup_info_lines(c: &Config, mode: ServerMode, grpc_enabled: bool) -> (r: Vec<String>)
    ensures
        r@.map_values(|s: String| s@) == startup_info(*c, mode, grpc_enabled),
{
    let mut lines: Vec<String> = Vec::new();
    push_line(&mut lines, String::new());
    push_line(&mut lines, rule_string());
    push_line(&mut lines, String::from_str("Browser Render Rust Server Started"));
    push_line(&mut lines, rule_string());
    let ghost head = lines@.map_values(|s: String| s@);
    let show_grpc = match mode {
        ServerMode::Grpc => true,
        ServerMode::Http => false,
        ServerMode::Both => grpc_enabled,
    };
    let show_http = match mode {
        ServerMode::Grpc => false,
        _ => true,
    };
    if show_grpc {
        push_line(&mut lines, concat_str(String::from_str("gRPC Server:  localhost:"), c.grpc_port.as_str()));
    }
    if show_http {
        push_line(&mut lines, concat_str(String::from_str("HTTP Server:  http://localhost:"), c.http_port.as_str()));
        let h = concat_str(String::from_str("Health Check: http://localhost:"), c.http_port.as_str());
        push_line(&mut lines, concat_str(h, "/health"));
    }
    let ghost mid = lines@.map_values(|s: String| s@);
    assert(mid =~= head + server_lines(mode, grpc_enabled, c.grpc_port@, c.http_port@));
    push_line(&mut lines, String::new());
    push_line(&mut lines, String::from_str("Configuration:"));
    push_line(
        &mut lines,
        concat_str(String::from_str("  Browser Mode: "), if c.browser_headless { "Headless" } else { "GUI" }),
    );
    push_line(
        &mut lines,
        concat_str(String::from_str("  Debug Mode:   "), if c.browser_debug { "true" } else { "false" }),
    );
    push_line(&mut lines, concat_str(String::from_str("  Database:     "), c.sqlite_path.as_str()));
    push_line(&mut lines, String::new());
    push_line(&mut lines, String::from_str("Press Ctrl+C to stop the server"));
    push_line(&mut lines, rule_string());
    push_line(&mut lines, String::new());
    assert(lines@.map_values(|s: String| s@) =~= startup_info(*c, mode, grpc_enabled));
    lines
}

} // verus!
