//! The daemon-control client's configuration-text logic: reading jail
//! definitions out of the configuration text and switching a jail on or
//! off in it. The process invocation and file I/O around these live
//! outside the library.

use vstd::prelude::*;
use vstd::string::StrSliceExecFns;
use vstd::string::StringExecFns;

use crate::errors::AppError;
use crate::ini::{
    join_lines, spec_join, spec_lines, spec_parse_i32, spec_trim, split_lines, parse_i32, trim,
};
use crate::model::{jail_config_views, JailConfig, JailConfigView};
use crate::monitor::line_views;
use crate::text::{eq_ci, find_from, lemma_chars_cmp_eq, str_cmp, equals_ci, find_char_from};

verus! {

/// Handle on the daemon's control channel. The methods that invoke the
/// external control program live outside the library; the configuration
/// text handling is here.
pub struct Fail2banClient;

/// A fresh jail definition: disabled until the text says otherwise, with
/// the conventional retry and timing defaults.
pub open spec fn default_jail(name: Seq<char>) -> JailConfigView {
    JailConfigView {
        name,
        enabled: false,
        filter: Seq::empty(),
        port: Seq::empty(),
        protocol: Seq::empty(),
        log_path: Seq::empty(),
        max_retry: 5,
        find_time: "10m"@,
        ban_time: "1h"@,
        action: Seq::empty(),
    }
}

/// Whether a trimmed line is a section header: bracketed on both ends.
pub open spec fn is_section(t: Seq<char>) -> bool {
    t.len() >= 2 && t[0] == '[' && t[t.len() - 1] == ']'
}

/// Name of a section header: the text between the brackets.
pub open spec fn section_name(t: Seq<char>) -> Seq<char> {
    t.subrange(1, t.len() - 1)
}

/// Whether a section holds a jail definition: anything but the reserved
/// sections.
pub open spec fn is_jail_section_name(n: Seq<char>) -> bool {
    n != "DEFAULT"@ && n != "INCLUDES"@ && n != "Definition"@
}

/// One key set on a jail definition. Unknown keys and an unreadable retry
/// count are ignored.
pub open spec fn apply_kv(j: JailConfigView, key: Seq<char>, value: Seq<char>) -> JailConfigView {
    if key == "enabled"@ {
        JailConfigView { enabled: eq_ci(value, "true"@), ..j }
    } else if key == "filter"@ {
        JailConfigView { filter: value, ..j }
    } else if key == "port"@ {
        JailConfigView { port: value, ..j }
    } else if key == "protocol"@ {
        JailConfigView { protocol: value, ..j }
    } else if key == "logpath"@ {
        JailConfigView { log_path: value, ..j }
    } else if key == "maxretry"@ {
        match spec_parse_i32(value) {
            Some(v) => JailConfigView { max_retry: v, ..j },
            None => j,
        }
    } else if key == "findtime"@ {
        JailConfigView { find_time: value, ..j }
    } else if key == "bantime"@ {
        JailConfigView { ban_time: value, ..j }
    } else if key == "action"@ {
        JailConfigView { action: value, ..j }
    } else {
        j
    }
}

/// Parser state: the jails already closed, and the one being filled.
pub ghost struct IniState {
    pub jails: Seq<JailConfigView>,
    pub current: Option<JailConfigView>,
}

/// One line of configuration text applied to the parser state: comments
/// and blank lines are skipped, a section header closes the open jail and
/// opens a new one unless the section is reserved, and a `key = value`
/// line inside a jail sets one field.
pub open spec fn ini_step(st: IniState, line: Seq<char>) -> IniState {
    let t = spec_trim(line);
    if t.len() == 0 || t[0] == '#' {
        st
    } else if is_section(t) {
        let closed = match st.current {
            Some(j) => st.jails.push(j),
            None => st.jails,
        };
        if is_jail_section_name(section_name(t)) {
            IniState { jails: closed, current: Some(default_jail(section_name(t))) }
        } else {
            IniState { jails: closed, current: None }
        }
    } else {
        match st.current {
            None => st,
            Some(j) => {
                let e = find_from(t, '=', 0);
                if e == t.len() {
                    st
                } else {
                    let key = spec_trim(t.subrange(0, e));
                    let value = spec_trim(t.subrange(e + 1, t.len() as int));
                    IniState { jails: st.jails, current: Some(apply_kv(j, key, value)) }
                }
            },
        }
    }
}

/// The parser state after a run of lines.
pub open spec fn ini_fold(st: IniState, lines: Seq<Seq<char>>) -> IniState
    decreases lines.len(),
{
    if lines.len() == 0 {
        st
    } else {
        ini_step(ini_fold(st, lines.drop_last()), lines.last())
    }
}

/// The jail definitions a configuration text holds, in order of
/// appearance, the still-open last section included.
pub open spec fn spec_parse_jail_configs(content: Seq<char>) -> Seq<JailConfigView> {
    let st = ini_fold(
        IniState { jails: Seq::empty(), current: None },
        spec_lines(content),
    );
    match st.current {
        Some(j) => st.jails.push(j),
        None => st.jails,
    }
}

/// The header line of a named section.
pub open spec fn spec_header_line(name: Seq<char>) -> Seq<char> {
    seq!['['] + name + seq![']']
}

/// First line whose trimmed text is the named section's header, at or
/// after `i`; the line count when there is none.
pub open spec fn find_header(lines: Seq<Seq<char>>, name: Seq<char>, i: int) -> int
    decreases lines.len() - i when 0 <= i <= lines.len()
{
    if i >= lines.len() {
        lines.len() as int
    } else if spec_trim(lines[i]) == spec_header_line(name) {
        i
    } else {
        find_header(lines, name, i + 1)
    }
}

/// First line at or after `i` whose trimmed text is a section header; the
/// line count when there is none.
pub open spec fn find_section_end(lines: Seq<Seq<char>>, i: int) -> int
    decreases lines.len() - i when 0 <= i <= lines.len()
{
    if i >= lines.len() {
        lines.len() as int
    } else if is_section(spec_trim(lines[i])) {
        i
    } else {
        find_section_end(lines, i + 1)
    }
}

/// Whether a trimmed line assigns the `enabled` key: it starts with the
/// word and holds an equals sign.
pub open spec fn is_enabled_assign(t: Seq<char>) -> bool {
    t.len() >= 7 && t.subrange(0, 7) == "enabled"@ && find_from(t, '=', 0) < t.len()
}

/// The replacement `enabled` line.
pub open spec fn enabled_line(enabled: bool) -> Seq<char> {
    if enabled {
        "enabled = true"@
    } else {
        "enabled = false"@
    }
}

/// The configuration text with one jail switched on or off: inside the
/// named jail's section every `enabled` assignment is rewritten; a section
/// without one gains the line right under its header; a text without the
/// section is returned unchanged up to line joining.
pub open spec fn spec_update_enabled(content: Seq<char>, name: Seq<char>, enabled: bool) -> Seq<
    char,
> {
    let lines = spec_lines(content);
    let h = find_header(lines, name, 0);
    if h == lines.len() {
        spec_join(lines)
    } else {
        let e = find_section_end(lines, h + 1);
        let has = exists|k: int| h < k < e && is_enabled_assign(spec_trim(#[trigger] lines[k]));
        if has {
            spec_join(
                Seq::new(
                    lines.len(),
                    |k: int|
                        if h < k < e && is_enabled_assign(spec_trim(lines[k])) {
                            enabled_line(enabled)
                        } else {
                            lines[k]
                        },
                ),
            )
        } else {
            spec_join(lines.insert(h + 1, enabled_line(enabled)))
        }
    }
}

impl Fail2banClient {
    /// A handle on the daemon's control channel.
    pub fn new() -> (r: Self)
        ensures
            true,
    {
        Fail2banClient
    }

    /// Reads every jail definition out of a configuration text: one jail
    /// per non-reserved section, fields taken from its `key = value`
    /// lines, defaults elsewhere. Never fails: malformed lines are
    /// skipped.
    pub fn parse_jail_configs(&self, content: &str) -> (r: Result<Vec<JailConfig>, AppError>)
        ensures
            r is Ok,
            jail_config_views(r->Ok_0@) == spec_parse_jail_configs(content@),
    {
        let lines = split_lines(content);
        let ghost lv = line_views(lines@);
        let mut jails: Vec<JailConfig> = Vec::new();
        let mut current: Option<JailConfig> = None;
        let ghost init = IniState { jails: Seq::empty(), current: None };
        let mut i: usize = 0;
        proof {
            assert(lv.take(0) =~= Seq::<Seq<char>>::empty());
            assert(jail_config_views(jails@) =~= Seq::<JailConfigView>::empty());
        }
        while i < lines.len()
            invariant
                i <= lines@.len(),
                lv == line_views(lines@),
                ({
                    let st = ini_fold(
                        IniState { jails: Seq::empty(), current: None },
                        lv.take(i as int),
                    );
                    &&& jail_config_views(jails@) == st.jails
                    &&& (match current {
                        Some(c) => st.current == Some(c@),
                        None => st.current is None,
                    })
                }),
            decreases lines@.len() - i,
        {
            let ghost st_pre = ini_fold(
                IniState { jails: Seq::empty(), current: None },
                lv.take(i as int),
            );
            proof {
                assert(lv.take(i as int + 1).drop_last() =~= lv.take(i as int));
                assert(lv.take(i as int + 1).last() == lines@[i as int]@);
            }
            let t = trim(lines[i].as_str());
            let tlen = t.as_str().unicode_len();
            if tlen == 0 || t.as_str().get_char(0) == '#' {
                // Comment or blank line.
            } else if tlen >= 2 && t.as_str().get_char(0) == '[' && t.as_str().get_char(tlen - 1)
                == ']' {
                let name = String::from_str(t.as_str().substring_char(1, tlen - 1));
                proof {
                    assert(name@ =~= section_name(t@));
                }
                match current {
                    Some(j) => {
                        let ghost pushed = st_pre.jails.push(j@);
                        jails.push(j);
                        proof {
                            assert(jail_config_views(jails@) =~= pushed);
                        }
                    },
                    None => {},
                }
                let named_default = is_named_default(name.as_str());
                if !named_default {
                    current = Some(
                        JailConfig {
                            name,
                            enabled: false,
                            filter: String::new(),
                            port: String::new(),
                            protocol: String::new(),
                            log_path: String::new(),
                            max_retry: 5,
                            find_time: String::from_str("10m"),
                            ban_time: String::from_str("1h"),
                            action: String::new(),
                        },
                    );
                } else {
                    current = None;
                }
            } else {
                match current {
                    None => {},
                    Some(j) => {
                        let e = find_char_from(t.as_str(), '=', 0);
                        proof {
                            crate::text::lemma_find_from(t@, '=', 0);
                        }
                        if e == tlen {
                            current = Some(j);
                        } else {
                            let key = trim(t.as_str().substring_char(0, e));
                            let value = trim(t.as_str().substring_char(e + 1, tlen));
                            proof {
                                assert(key@ == spec_trim(t@.subrange(0, e as int)));
                                assert(value@ == spec_trim(
                                    t@.subrange(e as int + 1, t@.len() as int),
                                ));
                            }
                            current = Some(apply_kv_exec(j, key.as_str(), value.as_str()));
                        }
                    },
                }
            }
            i = i + 1;
        }
        proof {
            assert(lv.take(lines@.len() as int) =~= lv);
        }
        match current {
            Some(j) => {
                let ghost closed = jail_config_views(jails@).push(j@);
                jails.push(j);
                proof {
                    assert(jail_config_views(jails@) =~= closed);
                }
            },
            None => {},
        }
        Ok(jails)
    }

    /// Rewrites a configuration text so the named jail is enabled or
    /// disabled: every `enabled` assignment in its section is replaced, or
    /// the line is inserted right under the section header; a text without
    /// the section comes back unchanged up to line joining.
    pub fn update_jail_enabled_in_config(
        &self,
        content: &str,
        jail_name: &str,
        enabled: bool,
    ) -> (r: Result<String, AppError>)
        ensures
            r is Ok,
            r->Ok_0@ == spec_update_enabled(content@, jail_name@, enabled),
    {
        let lines = split_lines(content);
        let ghost lv = line_views(lines@);
        let mut header = String::from_str("[");
        header.append(jail_name);
        header.append("]");
        proof {
            reveal_strlit("[");
            reveal_strlit("]");
            assert(header@ =~= spec_header_line(jail_name@));
        }
        // Find the section header.
        let h = find_header_exec(&lines, &header, Ghost(jail_name@));
        if h == lines.len() {
            return Ok(join_lines(&lines));
        }
        // Find the end of the section.
        let e = find_section_end_exec(&lines, h + 1);
        // Look for an enabled assignment inside the section.
        let mut has: bool = false;
        let mut k: usize = h + 1;
        while k < e
            invariant
                h + 1 <= k <= e,
                e <= lines@.len(),
                lv == line_views(lines@),
                has == (exists|t: int|
                    h < t < k && is_enabled_assign(spec_trim(#[trigger] lv[t]))),
            decreases e - k,
        {
            let p = line_is_enabled_assign(&lines[k]);
            if p {
                has = true;
                proof {
                    assert(h < k < k + 1 && is_enabled_assign(spec_trim(lv[k as int])));
                }
            } else {
                proof {
                    assert forall|t: int|
                        h < t < k + 1 && is_enabled_assign(
                            spec_trim(#[trigger] lv[t]),
                        ) implies (exists|u: int|
                        h < u < k && is_enabled_assign(spec_trim(#[trigger] lv[u]))) by {
                        assert(t != k);
                    }
                }
            }
            k = k + 1;
        }
        let new_line = if enabled {
            String::from_str("enabled = true")
        } else {
            String::from_str("enabled = false")
        };
        if has {
            let ghost target = Seq::new(
                lv.len(),
                |k: int|
                    if h < k < e && is_enabled_assign(spec_trim(lv[k])) {
                        enabled_line(enabled)
                    } else {
                        lv[k]
                    },
            );
            let mut out: Vec<String> = Vec::new();
            let mut j: usize = 0;
            proof {
                assert(line_views(out@) =~= target.take(0));
            }
            while j < lines.len()
                invariant
                    j <= lines@.len(),
                    lv == line_views(lines@),
                    h < e <= lines@.len(),
                    new_line@ == enabled_line(enabled),
                    target == Seq::new(
                        lv.len(),
                        |k: int|
                            if h < k < e && is_enabled_assign(spec_trim(lv[k])) {
                                enabled_line(enabled)
                            } else {
                                lv[k]
                            },
                    ),
                    line_views(out@) =~= target.take(j as int),
                decreases lines@.len() - j,
            {
                let replace = h < j && j < e && line_is_enabled_assign(&lines[j]);
                if replace {
                    out.push(new_line.clone());
                } else {
                    out.push(lines[j].clone());
                }
                proof {
                    assert(line_views(out@) =~= target.take(j as int).push(target[j as int]));
                    assert(target.take(j as int + 1) =~= target.take(j as int).push(
                        target[j as int],
                    ));
                }
                j = j + 1;
            }
            proof {
                assert(target.take(lv.len() as int) =~= target);
            }
            Ok(join_lines(&out))
        } else {
            let mut out = lines;
            out.insert(h + 1, new_line);
            proof {
                assert(line_views(out@) =~= lv.insert(h as int + 1, enabled_line(enabled)));
            }
            Ok(join_lines(&out))
        }
    }
}

/// First line whose trimmed text equals the header, else the line count.
fn find_header_exec(lines: &Vec<String>, header: &String, name: Ghost<Seq<char>>) -> (r: usize)
    requires
        header@ == spec_header_line(name@),
    ensures
        r as int == find_header(line_views(lines@), name@, 0),
        r <= lines@.len(),
        r < lines@.len() ==> spec_trim(line_views(lines@)[r as int]) == spec_header_line(name@),
{
    let ghost lv = line_views(lines@);
    let mut h: usize = 0;
    while h < lines.len()
        invariant
            h <= lines@.len(),
            lv == line_views(lines@),
            header@ == spec_header_line(name@),
            find_header(lv, name@, 0) == find_header(lv, name@, h as int),
        decreases lines@.len() - h,
    {
        let t = trim(lines[h].as_str());
        let same = str_cmp(t.as_str(), header.as_str()) == 0;
        proof {
            lemma_chars_cmp_eq(t@, header@);
        }
        if same {
            proof {
                assert(find_header(lv, name@, h as int) == h as int);
            }
            return h;
        }
        h = h + 1;
    }
    lines.len()
}

/// First line at or after `from` whose trimmed text is a section header,
/// else the line count.
fn find_section_end_exec(lines: &Vec<String>, from: usize) -> (r: usize)
    requires
        from <= lines@.len(),
    ensures
        r as int == find_section_end(line_views(lines@), from as int),
        from <= r <= lines@.len(),
{
    let ghost lv = line_views(lines@);
    let mut e: usize = from;
    while e < lines.len()
        invariant
            from <= e <= lines@.len(),
            lv == line_views(lines@),
            find_section_end(lv, from as int) == find_section_end(lv, e as int),
        decreases lines@.len() - e,
    {
        let t = trim(lines[e].as_str());
        let tlen = t.as_str().unicode_len();
        if tlen >= 2 && t.as_str().get_char(0) == '[' && t.as_str().get_char(tlen - 1) == ']' {
            proof {
                assert(is_section(spec_trim(lv[e as int])));
                assert(find_section_end(lv, e as int) == e as int);
            }
            return e;
        }
        proof {
            assert(!is_section(spec_trim(lv[e as int])));
        }
        e = e + 1;
    }
    lines.len()
}

/// The milliseconds a ban-time text names: a number suffixed `h`, `d` or
/// `m` counts hours, days or minutes; a bare number counts seconds.
pub open spec fn spec_parse_bantime_ms(s: Seq<char>) -> Option<int> {
    let t = spec_trim(s);
    if t.len() > 0 && t.last() == 'h' {
        match spec_parse_i32(t.drop_last()) {
            Some(v) => Some(v * 3_600_000),
            None => None,
        }
    } else if t.len() > 0 && t.last() == 'd' {
        match spec_parse_i32(t.drop_last()) {
            Some(v) => Some(v * 86_400_000),
            None => None,
        }
    } else if t.len() > 0 && t.last() == 'm' {
        match spec_parse_i32(t.drop_last()) {
            Some(v) => Some(v * 60_000),
            None => None,
        }
    } else {
        match spec_parse_i32(t) {
            Some(v) => Some(v * 1000),
            None => None,
        }
    }
}

/// Parses a configured ban time into milliseconds: `1h`, `2d`, `30m` or a
/// bare count of seconds. Anything unreadable parses to nothing.
pub fn parse_bantime_ms(bantime: &str) -> (r: Option<i64>)
    ensures
        (match r {
            Some(v) => spec_parse_bantime_ms(bantime@) == Some(v as int),
            None => spec_parse_bantime_ms(bantime@) is None,
        }),
{
    let t = trim(bantime);
    let tlen = t.as_str().unicode_len();
    if tlen > 0 {
        let last = t.as_str().get_char(tlen - 1);
        if last == 'h' || last == 'd' || last == 'm' {
            let scale: i64 = if last == 'h' {
                3_600_000
            } else if last == 'd' {
                86_400_000
            } else {
                60_000
            };
            let head = t.as_str().substring_char(0, tlen - 1);
            proof {
                assert(head@ =~= t@.drop_last());
            }
            return match parse_i32(head) {
                Some(v) => Some((v as i64) * scale),
                None => None,
            };
        }
    }
    match parse_i32(t.as_str()) {
        Some(v) => Some((v as i64) * 1000),
        None => None,
    }
}

/// Whether a trimmed section name is one of the reserved sections.
fn is_named_default(name: &str) -> (r: bool)
    ensures
        r == !is_jail_section_name(name@),
{
    let a = str_cmp(name, "DEFAULT") == 0;
    let b = str_cmp(name, "INCLUDES") == 0;
    let c = str_cmp(name, "Definition") == 0;
    proof {
        lemma_chars_cmp_eq(name@, "DEFAULT"@);
        lemma_chars_cmp_eq(name@, "INCLUDES"@);
        lemma_chars_cmp_eq(name@, "Definition"@);
    }
    a || b || c
}

/// Whether a raw line, trimmed, assigns the `enabled` key.
fn line_is_enabled_assign(line: &String) -> (r: bool)
    ensures
        r == is_enabled_assign(spec_trim(line@)),
{
    let t = trim(line.as_str());
    let tlen = t.as_str().unicode_len();
    if tlen < 7 {
        return false;
    }
    let head = t.as_str().substring_char(0, 7);
    let starts = str_cmp(head, "enabled") == 0;
    proof {
        lemma_chars_cmp_eq(head@, "enabled"@);
    }
    if !starts {
        return false;
    }
    let eq_pos = find_char_from(t.as_str(), '=', 0);
    eq_pos < tlen
}

/// Applies one `key = value` line to a jail definition.
fn apply_kv_exec(j: JailConfig, key: &str, value: &str) -> (r: JailConfig)
    ensures
        r@ == apply_kv(j@, key@, value@),
{
    let mut j = j;
    if key_is(key, "enabled") {
        j.enabled = equals_ci(value, "true");
    } else if key_is(key, "filter") {
        j.filter = String::from_str(value);
    } else if key_is(key, "port") {
        j.port = String::from_str(value);
    } else if key_is(key, "protocol") {
        j.protocol = String::from_str(value);
    } else if key_is(key, "logpath") {
        j.log_path = String::from_str(value);
    } else if key_is(key, "maxretry") {
        match parse_i32(value) {
            Some(v) => {
                j.max_retry = v;
            },
            None => {},
        }
    } else if key_is(key, "findtime") {
        j.find_time = String::from_str(value);
    } else if key_is(key, "bantime") {
        j.ban_time = String::from_str(value);
    } else if key_is(key, "action") {
        j.action = String::from_str(value);
    }
    j
}

/// Exact string equality against a keyword.
fn key_is(key: &str, word: &str) -> (r: bool)
    ensures
        r == (key@ == word@),
{
    let same = str_cmp(key, word) == 0;
    proof {
        lemma_chars_cmp_eq(key@, word@);
    }
    same
}

} // verus!
