//! Interpretation of authentication evidence: the CLI's own status output and
//! the credential records found in its configuration files.
//!
//! Running the CLI and reading the files is left to the surrounding
//! application; it hands the plain values to the functions here.

use vstd::prelude::*;

use crate::text::{
    after_first, chars_of, chars_range, contains_chars, contains_seq, find_char, find_char_in,
    has_prefix, lines_of, split_lines, starts_with_chars, string_from_chars, trim_chars, trimmed,
};
use crate::types::{AuthStatus, AuthStatusView};

verus! {

/// One host record found in a credential file: the user and email fields when
/// present, and whether the record carries an OAuth token.
#[derive(Debug)]
pub struct HostEntry {
    pub user: Option<String>,
    pub email: Option<String>,
    pub has_oauth_token: bool,
}

/// View of [`HostEntry`].
pub struct HostEntryView {
    pub user: Option<Seq<char>>,
    pub email: Option<Seq<char>>,
    pub has_oauth_token: bool,
}

impl View for HostEntry {
    type V = HostEntryView;

    open spec fn view(&self) -> HostEntryView {
        HostEntryView {
            user: match &self.user {
                Some(u) => Some(u@),
                None => None,
            },
            email: match &self.email {
                Some(e) => Some(e@),
                None => None,
            },
            has_oauth_token: self.has_oauth_token,
        }
    }
}

impl DeepView for HostEntry {
    type V = HostEntryView;

    open spec fn deep_view(&self) -> HostEntryView {
        self.view()
    }
}

/// The username one trimmed status line yields: the rest of a
/// "Logged in as " line, or the second colon-separated piece of a line that
/// mentions a username field.
pub open spec fn username_of_line(line: Seq<char>) -> Option<Seq<char>> {
    let t = trimmed(line);
    if has_prefix(t, "Logged in as "@) {
        Some(trimmed(t.skip(13)))
    } else if (contains_seq(t, "username:"@) || contains_seq(t, "Username:"@)) && find_char(
        t,
        ':',
    ) != -1 {
        let rest = after_first(t, ':');
        Some(
            trimmed(
                if find_char(rest, ':') == -1 {
                    rest
                } else {
                    rest.subrange(0, find_char(rest, ':'))
                },
            ),
        )
    } else {
        None
    }
}

/// The username the whole status output yields: the first line that yields
/// one.
pub open spec fn username_of_output(lines: Seq<Seq<char>>) -> Option<Seq<char>>
    decreases lines.len(),
{
    if lines.len() == 0 {
        None
    } else {
        match username_of_line(lines[0]) {
            Some(u) => Some(u),
            None => username_of_output(lines.drop_first()),
        }
    }
}

/// Extract a username from the CLI's status output, line by line.
pub fn extract_username(output: &str) -> (r: Option<String>)
    ensures
        match r {
            Some(u) => username_of_output(lines_of(output@)) == Some(u@),
            None => username_of_output(lines_of(output@)) is None,
        },
{
    let chars = chars_of(output);
    let lines = split_lines(&chars);
    let n = lines.len();
    let ghost full = lines_of(output@);
    let mut i: usize = 0;
    proof {
        assert(full.skip(0) =~= full);
    }
    while i < n
        invariant
            i <= n,
            n == lines.len(),
            full == lines_of(output@),
            n == full.len(),
            forall|j: int| 0 <= j < n ==> #[trigger] lines@[j]@ == full[j],
            username_of_output(full) == username_of_output(full.skip(i as int)),
        decreases n - i,
    {
        let ghost restl = full.skip(i as int);
        proof {
            assert(restl.len() > 0);
            assert(restl[0] == full[i as int]);
            assert(restl.drop_first() =~= full.skip(i + 1 as int));
        }
        let t = trim_chars(&lines[i]);
        let logged = chars_of("Logged in as ");
        if starts_with_chars(&t, &logged) {
            proof {
                reveal_strlit("Logged in as ");
            }
            let rest = chars_range(&t, 13, t.len());
            proof {
                assert(rest@ =~= t@.skip(13));
            }
            let name = trim_chars(&rest);
            return Some(string_from_chars(&name));
        }
        let user_lower = chars_of("username:");
        let user_upper = chars_of("Username:");
        if contains_chars(&t, &user_lower) || contains_chars(&t, &user_upper) {
            match find_char_in(&t, ':') {
                Some(c1) => {
                    let rest = chars_range(&t, c1 + 1, t.len());
                    proof {
                        assert(rest@ =~= after_first(t@, ':'));
                    }
                    let piece = match find_char_in(&rest, ':') {
                        Some(c2) => chars_range(&rest, 0, c2),
                        None => rest,
                    };
                    let name = trim_chars(&piece);
                    return Some(string_from_chars(&name));
                },
                None => (),
            }
        }
        i = i + 1;
    }
    proof {
        assert(full.skip(n as int) =~= Seq::<Seq<char>>::empty());
    }
    None
}

/// What the CLI's status output means: authenticated when it reports a login
/// or exited successfully, with the username it printed, if any.
pub open spec fn cli_auth(stdout: Seq<char>, success: bool) -> Option<AuthStatusView> {
    if contains_seq(stdout, "Logged in"@) || success {
        Some(
            AuthStatusView {
                authenticated: true,
                username: username_of_output(lines_of(stdout)),
                email: None,
            },
        )
    } else {
        None
    }
}

/// Interpret the CLI's status output; see [`cli_auth`].
pub fn auth_from_cli_output(stdout: &str, success: bool) -> (r: Option<AuthStatus>)
    ensures
        match r {
            Some(a) => cli_auth(stdout@, success) == Some(a@),
            None => cli_auth(stdout@, success) is None,
        },
{
    let chars = chars_of(stdout);
    let logged = chars_of("Logged in");
    if contains_chars(&chars, &logged) || success {
        Some(
            AuthStatus { authenticated: true, username: extract_username(stdout), email: None },
        )
    } else {
        None
    }
}

/// What the CLI's own credential store yields: the first record with a user
/// decides with its user and email; a record with only a token still counts
/// as authenticated, anonymously.
pub open spec fn hosts_auth(entries: Seq<HostEntryView>) -> Option<AuthStatusView>
    decreases entries.len(),
{
    if entries.len() == 0 {
        None
    } else if entries[0].user is Some {
        Some(
            AuthStatusView {
                authenticated: true,
                username: entries[0].user,
                email: entries[0].email,
            },
        )
    } else if entries[0].has_oauth_token {
        Some(AuthStatusView { authenticated: true, username: None, email: None })
    } else {
        hosts_auth(entries.drop_first())
    }
}

/// Interpret the CLI's credential store; see [`hosts_auth`].
pub fn auth_from_host_entries(entries: &Vec<HostEntry>) -> (r: Option<AuthStatus>)
    ensures
        match r {
            Some(a) => hosts_auth(entries.deep_view()) == Some(a@),
            None => hosts_auth(entries.deep_view()) is None,
        },
{
    let n = entries.len();
    let ghost full = entries.deep_view();
    let mut i: usize = 0;
    proof {
        assert(full.skip(0) =~= full);
    }
    while i < n
        invariant
            i <= n,
            n == entries.len(),
            full == entries.deep_view(),
            hosts_auth(full) == hosts_auth(full.skip(i as int)),
        decreases n - i,
    {
        proof {
            assert(full.skip(i as int)[0] == full[i as int]);
            assert(full.skip(i as int).drop_first() =~= full.skip(i + 1 as int));
        }
        let entry = &entries[i];
        match &entry.user {
            Some(u) => {
                return Some(
                    AuthStatus {
                        authenticated: true,
                        username: Some(u.clone()),
                        email: match &entry.email {
                            Some(e) => Some(e.clone()),
                            None => None,
                        },
                    },
                );
            },
            None => (),
        }
        if entry.has_oauth_token {
            return Some(AuthStatus { authenticated: true, username: None, email: None });
        }
        i = i + 1;
    }
    proof {
        assert(full.skip(n as int) =~= Seq::<HostEntryView>::empty());
    }
    None
}

/// What a fallback configuration file yields: the first record with either a
/// user or a token decides, with whatever user and email it carries.
pub open spec fn config_auth(entries: Seq<HostEntryView>) -> Option<AuthStatusView>
    decreases entries.len(),
{
    if entries.len() == 0 {
        None
    } else if entries[0].user is Some || entries[0].has_oauth_token {
        Some(
            AuthStatusView {
                authenticated: true,
                username: entries[0].user,
                email: entries[0].email,
            },
        )
    } else {
        config_auth(entries.drop_first())
    }
}

/// Interpret a fallback configuration file; see [`config_auth`].
pub fn auth_from_config_entries(entries: &Vec<HostEntry>) -> (r: Option<AuthStatus>)
    ensures
        match r {
            Some(a) => config_auth(entries.deep_view()) == Some(a@),
            None => config_auth(entries.deep_view()) is None,
        },
{
    let n = entries.len();
    let ghost full = entries.deep_view();
    let mut i: usize = 0;
    proof {
        assert(full.skip(0) =~= full);
    }
    while i < n
        invariant
            i <= n,
            n == entries.len(),
            full == entries.deep_view(),
            config_auth(full) == config_auth(full.skip(i as int)),
        decreases n - i,
    {
        proof {
            assert(full.skip(i as int)[0] == full[i as int]);
            assert(full.skip(i as int).drop_first() =~= full.skip(i + 1 as int));
        }
        let entry = &entries[i];
        if entry.user.is_some() || entry.has_oauth_token {
            return Some(
                AuthStatus {
                    authenticated: true,
                    username: match &entry.user {
                        Some(u) => Some(u.clone()),
                        None => None,
                    },
                    email: match &entry.email {
                        Some(e) => Some(e.clone()),
                        None => None,
                    },
                },
            );
        }
        i = i + 1;
    }
    proof {
        assert(full.skip(n as int) =~= Seq::<HostEntryView>::empty());
    }
    None
}

/// The unauthenticated status.
pub open spec fn anonymous_auth() -> AuthStatusView {
    AuthStatusView { authenticated: false, username: None, email: None }
}

/// Combine the probes: the CLI's answer wins, then the credential files, and
/// without either the user is unauthenticated.
pub fn check_auth_status(cli: Option<AuthStatus>, files: Option<AuthStatus>) -> (r: AuthStatus)
    ensures
        r@ == (match cli {
            Some(c) => c@,
            None => match files {
                Some(f) => f@,
                None => anonymous_auth(),
            },
        }),
{
    match cli {
        Some(c) => c,
        None => match files {
            Some(f) => f,
            None => AuthStatus { authenticated: false, username: None, email: None },
        },
    }
}

} // verus!
