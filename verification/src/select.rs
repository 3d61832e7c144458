//! Choosing the hosts of a run: every host, or those that a regular
//! expression matches by hostname, ip or group name.

use crate::error::RunError;
use crate::server::{host_views, HostView, SessionInfo};
use crate::text::same_text;
use regex::Regex;
use vstd::prelude::*;

verus! {

/// A compiled regular expression of the `regex` crate. Nothing of its inside
/// is visible here.
#[verifier::external_type_specification]
#[verifier::external_body]
pub struct ExRegex(regex::Regex);

/// The error with which the `regex` crate turns a pattern down.
#[verifier::external_type_specification]
#[verifier::external_body]
pub struct ExRegexError(regex::Error);

/// Whether the compiled expression `re` finds a match anywhere in `text`:
/// the answer of `Regex::is_match`.
pub uninterp spec fn regex_is_match(re: Regex, text: Seq<char>) -> bool;

/// Whether the expression written as `pattern`, compiled by `Regex::new`,
/// finds a match anywhere in `text`.
pub uninterp spec fn pattern_matches(pattern: Seq<char>, text: Seq<char>) -> bool;

/// Whether `Regex::new` accepts the expression written as `pattern`: it is
/// well formed, and what it compiles to stays within the crate's default size
/// limit.
pub uninterp spec fn pattern_compiles(pattern: Seq<char>) -> bool;

/// `Regex::new` compiles a pattern with the crate's default settings, or turns
/// it down. Assumed: whether it succeeds depends on the pattern alone, and an
/// expression that it hands back matches a text exactly when `pattern_matches`
/// says so of the pattern it was given.
pub assume_specification[ Regex::new ](re: &str) -> (compiled: Result<Regex, regex::Error>)
    ensures
        compiled is Ok <==> pattern_compiles(re@),
        compiled matches Ok(expression) ==> forall|text: Seq<char>|
            #[trigger] regex_is_match(expression, text) == pattern_matches(re@, text),
;

/// `Regex::is_match` says whether the expression matches somewhere in the
/// haystack. Assumed: its answer depends on the expression and the text alone.
pub assume_specification[ Regex::is_match ](re: &Regex, haystack: &str) -> (found: bool)
    ensures
        found == regex_is_match(*re, haystack@),
;

/// Whether `re` matches the hostname, the ip or the group name of `host`.
pub open spec fn regex_selects(re: Regex, host: HostView) -> bool {
    regex_is_match(re, host.hostname) || regex_is_match(re, host.ip) || regex_is_match(
        re,
        host.groupname,
    )
}

/// Whether the expression written as `pattern` matches the hostname, the ip
/// or the group name of `host`.
pub open spec fn pattern_selects(pattern: Seq<char>, host: HostView) -> bool {
    pattern_matches(pattern, host.hostname) || pattern_matches(pattern, host.ip)
        || pattern_matches(pattern, host.groupname)
}

/// Whether a pattern argument asks for every host: none given, or the word
/// `all`.
pub open spec fn selects_all(pattern: Option<Seq<char>>) -> bool {
    pattern is None || pattern == Some("all"@)
}

/// The hosts among `hosts` that `re` selects, in their order.
pub open spec fn regex_selection(hosts: Seq<HostView>, re: Regex) -> Seq<HostView> {
    hosts.filter(|host: HostView| regex_selects(re, host))
}

/// The hosts among `hosts` that the expression written as `pattern` selects,
/// in their order.
pub open spec fn pattern_selection(hosts: Seq<HostView>, pattern: Seq<char>) -> Seq<HostView> {
    hosts.filter(|host: HostView| pattern_selects(pattern, host))
}

/// The view of an optional text.
pub open spec fn text_view(text: Option<&str>) -> Option<Seq<char>> {
    match text {
        Some(t) => Some(t@),
        None => None,
    }
}

/// The hosts of `vec` whose hostname, ip or group name `re` matches, in the
/// order of `vec`.
pub fn find_regex_objects(vec: &Vec<SessionInfo>, re: &Regex) -> (found: Vec<SessionInfo>)
    ensures
        host_views(found@) == regex_selection(host_views(vec@), *re),
{
    let ghost keep = |host: HostView| regex_selects(*re, host);
    let mut found: Vec<SessionInfo> = Vec::new();
    let mut i: usize = 0;
    proof {
        reveal(Seq::filter);
    }
    while i < vec.len()
        invariant
            i <= vec.len(),
            keep == |host: HostView| regex_selects(*re, host),
            host_views(found@) == host_views(vec@).take(i as int).filter(keep),
        decreases vec.len() - i,
    {
        let info = &vec[i];
        proof {
            reveal(Seq::filter);
            let all = host_views(vec@);
            assert(all.take(i + 1).drop_last() == all.take(i as int));
            assert(all.take(i + 1).last() == info@);
        }
        if re.is_match(info.hostname.as_str()) || re.is_match(info.ip.as_str()) || re.is_match(
            info.groupname.as_str(),
        ) {
            let ghost before = found@;
            found.push(info.clone());
            assert(host_views(found@) == host_views(before).push(info@));
        }
        i += 1;
    }
    proof {
        let all = host_views(vec@);
        assert(all.take(i as int) == all);
    }
    found
}

/// How a run picks its hosts.
pub enum Selector {
    /// Every host of the directory.
    Everything,
    /// The hosts that the expression matches.
    Matching(Regex),
}

impl Selector {
    /// Whether this selector picks `host`.
    pub open spec fn selects(self, host: HostView) -> bool {
        match self {
            Selector::Everything => true,
            Selector::Matching(re) => regex_selects(re, host),
        }
    }

    /// The selector that a compiled pattern gives: the expression itself, or
    /// the pattern error with the reason as the `regex` crate displays it.
    pub fn from_compiled(compiled: Result<Regex, regex::Error>) -> (made: Result<Selector, RunError>)
        ensures
            match compiled {
                Ok(re) => made == Ok::<Selector, RunError>(Selector::Matching(re)),
                Err(reason) => made matches Err(RunError::Pattern(text))
                    && vstd::string::to_string_from_display_ensures::<regex::Error>(&reason, text),
            },
    {
        match compiled {
            Ok(re) => Ok(Selector::Matching(re)),
            Err(reason) => Err(RunError::Pattern(reason.to_string())),
        }
    }

    /// The selector that a pattern argument asks for. Without an argument, and
    /// for the word `all`, it is the one that picks every host. Any other
    /// argument is compiled as a regular expression: where it compiles, the
    /// selector picks the hosts that the expression matches, and where it does
    /// not, it is turned down as a pattern error.
    pub fn parse(pattern: Option<&str>) -> (made: Result<Selector, RunError>)
        ensures
            selects_all(text_view(pattern)) ==> made == Ok::<Selector, RunError>(
                Selector::Everything,
            ),
            !selects_all(text_view(pattern)) ==> (made is Ok <==> pattern_compiles(
                pattern.unwrap()@,
            )),
            !selects_all(text_view(pattern)) ==> match made {
                Ok(selector) => selector is Matching && forall|host: HostView|
                    #[trigger] selector.selects(host) == pattern_selects(pattern.unwrap()@, host),
                Err(error) => error is Pattern,
            },
    {
        match pattern {
            None => Ok(Selector::Everything),
            Some(text) => {
                if same_text(text, "all") {
                    Ok(Selector::Everything)
                } else {
                    Selector::from_compiled(Regex::new(text))
                }
            },
        }
    }

    /// The hosts among `hosts` that this selector picks, in their order.
    pub open spec fn selection(self, hosts: Seq<HostView>) -> Seq<HostView> {
        hosts.filter(|host: HostView| self.selects(host))
    }

    /// The hosts of `vec` that this selector picks, in the order of `vec`.
    pub fn pick(&self, vec: &Vec<SessionInfo>) -> (found: Vec<SessionInfo>)
        ensures
            host_views(found@) == self.selection(host_views(vec@)),
            self is Everything ==> host_views(found@) == host_views(vec@),
    {
        match self {
            Selector::Everything => {
                let mut found: Vec<SessionInfo> = Vec::new();
                let mut i: usize = 0;
                while i < vec.len()
                    invariant
                        i <= vec.len(),
                        host_views(found@) == host_views(vec@).take(i as int),
                    decreases vec.len() - i,
                {
                    let ghost before = found@;
                    found.push(vec[i].clone());
                    assert(host_views(found@) == host_views(before).push(vec[i as int]@));
                    assert(host_views(vec@).take(i + 1) == host_views(vec@).take(i as int).push(
                        vec[i as int]@,
                    ));
                    i += 1;
                }
                proof {
                    let all = host_views(vec@);
                    assert(all.take(i as int) == all);
                    lemma_filter_keeps_all(all, |host: HostView| self.selects(host));
                }
                found
            },
            Selector::Matching(re) => {
                let found = find_regex_objects(vec, re);
                proof {
                    lemma_filter_same(
                        host_views(vec@),
                        |host: HostView| regex_selects(*re, host),
                        |host: HostView| self.selects(host),
                    );
                }
                found
            },
        }
    }
}

/// The hosts of `vec` that a pattern argument asks for, in the order of `vec`.
/// Without an argument, and for the word `all`, these are all of them. Any
/// other argument is compiled as a regular expression: where it compiles, the
/// hosts are those whose hostname, ip or group name it matches, and where it
/// does not, the argument is turned down as a pattern error.
pub fn select_hosts(vec: &Vec<SessionInfo>, pattern: Option<&str>) -> (found: Result<
    Vec<SessionInfo>,
    RunError,
>)
    ensures
        selects_all(text_view(pattern)) ==> found is Ok && host_views(found->Ok_0@) == host_views(
            vec@,
        ),
        !selects_all(text_view(pattern)) ==> (found is Ok <==> pattern_compiles(
            pattern.unwrap()@,
        )),
        !selects_all(text_view(pattern)) ==> match found {
            Ok(hosts) => host_views(hosts@) == pattern_selection(
                host_views(vec@),
                pattern.unwrap()@,
            ),
            Err(error) => error is Pattern,
        },
{
    match Selector::parse(pattern) {
        Ok(selector) => {
            let hosts = selector.pick(vec);
            proof {
                if !selects_all(text_view(pattern)) {
                    lemma_filter_same(
                        host_views(vec@),
                        |host: HostView| selector.selects(host),
                        |host: HostView| pattern_selects(pattern.unwrap()@, host),
                    );
                }
            }
            Ok(hosts)
        },
        Err(error) => Err(error),
    }
}

/// An item is in a filtered sequence exactly when it is in the sequence and
/// meets the condition.
pub proof fn lemma_filter_member<A>(items: Seq<A>, keep: spec_fn(A) -> bool, item: A)
    ensures
        items.filter(keep).contains(item) <==> items.contains(item) && keep(item),
{
    if items.filter(keep).contains(item) {
        items.lemma_filter_contains_rev(keep, item);
        let at = choose|k: int| 0 <= k < items.filter(keep).len() && items.filter(keep)[k] == item;
        items.lemma_filter_pred(keep, at);
    }
    if items.contains(item) && keep(item) {
        let at = choose|k: int| 0 <= k < items.len() && items[k] == item;
        items.lemma_filter_contains(keep, at);
    }
}

/// A host is selected by a compiled expression exactly when it is one of the
/// candidates and the expression matches its hostname, its ip or its group
/// name.
pub proof fn lemma_regex_selected(hosts: Seq<HostView>, re: Regex, host: HostView)
    ensures
        regex_selection(hosts, re).contains(host) <==> hosts.contains(host) && (regex_is_match(
            re,
            host.hostname,
        ) || regex_is_match(re, host.ip) || regex_is_match(re, host.groupname)),
{
    lemma_filter_member(hosts, |host: HostView| regex_selects(re, host), host);
}

/// A host is selected by a pattern exactly when it is one of the candidates
/// and the pattern matches its hostname, its ip or its group name.
pub proof fn lemma_pattern_selected(hosts: Seq<HostView>, pattern: Seq<char>, host: HostView)
    ensures
        pattern_selection(hosts, pattern).contains(host) <==> hosts.contains(host) && (
        pattern_matches(pattern, host.hostname) || pattern_matches(pattern, host.ip)
            || pattern_matches(pattern, host.groupname)),
{
    lemma_filter_member(hosts, |host: HostView| pattern_selects(pattern, host), host);
}

/// A selector picks a host exactly when the host is one of the candidates and
/// the selector is the one for every host, or its expression matches the
/// host's hostname, ip or group name.
pub proof fn lemma_selector_selected(hosts: Seq<HostView>, selector: Selector, host: HostView)
    ensures
        selector.selection(hosts).contains(host) <==> hosts.contains(host) && selector.selects(
            host,
        ),
        selector is Everything ==> selector.selection(hosts) == hosts,
{
    lemma_filter_member(hosts, |host: HostView| selector.selects(host), host);
    if selector is Everything {
        lemma_filter_keeps_all(hosts, |host: HostView| selector.selects(host));
    }
}

/// Filtering by a condition that every item meets keeps the sequence as it is.
pub proof fn lemma_filter_keeps_all<A>(items: Seq<A>, keep: spec_fn(A) -> bool)
    requires
        forall|i: int| 0 <= i < items.len() ==> keep(#[trigger] items[i]),
    ensures
        items.filter(keep) == items,
    decreases items.len(),
{
    reveal(Seq::filter);
    if items.len() > 0 {
        assert forall|i: int| 0 <= i < items.drop_last().len() implies keep(
            #[trigger] items.drop_last()[i],
        ) by {
            assert(items.drop_last()[i] == items[i]);
        }
        lemma_filter_keeps_all(items.drop_last(), keep);
        assert(items.drop_last().push(items.last()) == items);
    }
}

/// Two conditions that agree on every item filter alike.
pub proof fn lemma_filter_same<A>(items: Seq<A>, first: spec_fn(A) -> bool, second: spec_fn(A) -> bool)
    requires
        forall|i: int| 0 <= i < items.len() ==> first(#[trigger] items[i]) == second(items[i]),
    ensures
        items.filter(first) == items.filter(second),
    decreases items.len(),
{
    reveal(Seq::filter);
    if items.len() > 0 {
        assert forall|i: int| 0 <= i < items.drop_last().len() implies first(
            #[trigger] items.drop_last()[i],
        ) == second(items.drop_last()[i]) by {
            assert(items.drop_last()[i] == items[i]);
        }
        lemma_filter_same(items.drop_last(), first, second);
    }
}

} // verus!
