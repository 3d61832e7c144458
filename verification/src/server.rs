//! The host configuration: groups of members, and the directory of hosts that
//! a run may act on.

use crate::address::{is_ipv4, is_ipv4_text, MAX_PORT};
use crate::text::{decimal, decimal_text, same_text, truth, truth_text};
use vstd::prelude::*;

verus! {

/// One line of connection details inside a group.
#[derive(Debug, PartialEq, Eq, PartialOrd, Ord, Hash)]
pub struct Member {
    pub hostname: String,
    pub ip: String,
    pub port: usize,
    pub user: String,
    pub password: String,
    pub valid: bool,
}

/// What a `Member` holds, as mathematical values.
pub struct MemberView {
    pub hostname: Seq<char>,
    pub ip: Seq<char>,
    pub port: nat,
    pub user: Seq<char>,
    pub password: Seq<char>,
    pub valid: bool,
}

impl View for Member {
    type V = MemberView;

    open spec fn view(&self) -> MemberView {
        MemberView {
            hostname: self.hostname@,
            ip: self.ip@,
            port: self.port as nat,
            user: self.user@,
            password: self.password@,
            valid: self.valid,
        }
    }
}

/// One host of the directory: a member's connection details and the name of
/// the group it came from.
#[derive(Debug, PartialEq, Eq, PartialOrd, Ord, Hash)]
pub struct SessionInfo {
    pub hostname: String,
    pub ip: String,
    pub port: usize,
    pub user: String,
    pub password: String,
    pub groupname: String,
}

/// What a `SessionInfo` holds, as mathematical values.
pub struct HostView {
    pub hostname: Seq<char>,
    pub ip: Seq<char>,
    pub port: nat,
    pub user: Seq<char>,
    pub password: Seq<char>,
    pub groupname: Seq<char>,
}

impl View for SessionInfo {
    type V = HostView;

    open spec fn view(&self) -> HostView {
        HostView {
            hostname: self.hostname@,
            ip: self.ip@,
            port: self.port as nat,
            user: self.user@,
            password: self.password@,
            groupname: self.groupname@,
        }
    }
}

/// The views of a sequence of hosts, in order.
pub open spec fn host_views(hosts: Seq<SessionInfo>) -> Seq<HostView> {
    Seq::new(hosts.len(), |i: int| hosts[i]@)
}

/// The views of a sequence of members, in order.
pub open spec fn member_views(members: Seq<Member>) -> Seq<MemberView> {
    Seq::new(members.len(), |i: int| members[i]@)
}

/// The views of a sequence of groups, in order.
pub open spec fn group_views(groups: Seq<Group>) -> Seq<GroupView> {
    Seq::new(groups.len(), |i: int| groups[i]@)
}

/// The host that a member becomes inside the group named `groupname`.
pub open spec fn host_of(member: MemberView, groupname: Seq<char>) -> HostView {
    HostView {
        hostname: member.hostname,
        ip: member.ip,
        port: member.port,
        user: member.user,
        password: member.password,
        groupname,
    }
}

/// The hosts of the members that are marked valid, in the members' order.
pub open spec fn valid_hosts(members: Seq<MemberView>, groupname: Seq<char>) -> Seq<HostView>
    decreases members.len(),
{
    if members.len() == 0 {
        Seq::empty()
    } else {
        let earlier = valid_hosts(members.drop_last(), groupname);
        if members.last().valid {
            earlier.push(host_of(members.last(), groupname))
        } else {
            earlier
        }
    }
}

/// The hosts that one group contributes to the directory: those of its valid
/// members if the group is valid, none otherwise.
pub open spec fn group_hosts(group: GroupView) -> Seq<HostView> {
    if group.valid {
        valid_hosts(group.members, group.name)
    } else {
        Seq::empty()
    }
}

/// The host directory: what the groups contribute, group after group.
pub open spec fn directory(groups: Seq<GroupView>) -> Seq<HostView>
    decreases groups.len(),
{
    if groups.len() == 0 {
        Seq::empty()
    } else {
        directory(groups.drop_last()) + group_hosts(groups.last())
    }
}

/// The home directory of a user on a host: `/root` for `root`, and
/// `/home/` followed by the name for everyone else.
pub open spec fn home_dir(user: Seq<char>) -> Seq<char> {
    if user == "root"@ {
        "/root"@
    } else {
        "/home/"@ + user
    }
}

/// The short name of a host in reports and file names: hostname, `_`, ip.
pub open spec fn host_label(host: HostView) -> Seq<char> {
    host.hostname + "_"@ + host.ip
}

/// Whether a host can be reached at a socket address: its ip writes an IPv4
/// address, and its port is one.
pub open spec fn is_socket_address(host: HostView) -> bool {
    is_ipv4(host.ip) && host.port <= MAX_PORT
}

/// The address at which a host is reached: ip, `:`, port.
pub open spec fn socket_address(host: HostView) -> Seq<char> {
    host.ip + ":"@ + decimal(host.port)
}

/// The identity of a host as it is attached to what is reported of it:
/// its label, port, user and password.
pub open spec fn host_identity(host: HostView) -> Seq<char> {
    host_label(host) + ", port:"@ + decimal(host.port) + ", user:"@ + host.user + ", password:"@
        + host.password
}

/// A member written out field by field.
pub open spec fn member_line(member: MemberView) -> Seq<char> {
    "hostname:"@ + member.hostname + ", ip:"@ + member.ip + ", port:"@ + decimal(member.port)
        + ", user:"@ + member.user + ", password:"@ + member.password + ", valid:"@ + truth(
        member.valid,
    )
}

/// How many of the members are marked valid.
pub open spec fn valid_count(members: Seq<MemberView>) -> nat
    decreases members.len(),
{
    if members.len() == 0 {
        0
    } else {
        valid_count(members.drop_last()) + if members.last().valid {
            1nat
        } else {
            0nat
        }
    }
}

/// How many hosts the groups contribute: the valid members of the valid groups.
pub open spec fn listed_count(groups: Seq<GroupView>) -> nat
    decreases groups.len(),
{
    if groups.len() == 0 {
        0
    } else {
        listed_count(groups.drop_last()) + if groups.last().valid {
            valid_count(groups.last().members)
        } else {
            0nat
        }
    }
}

/// A valid member's host is among the hosts taken from its group's members.
pub proof fn lemma_valid_member_kept(members: Seq<MemberView>, groupname: Seq<char>, m: int)
    requires
        0 <= m < members.len(),
        members[m].valid,
    ensures
        valid_hosts(members, groupname).contains(host_of(members[m], groupname)),
    decreases members.len(),
{
    let earlier = valid_hosts(members.drop_last(), groupname);
    if m == members.len() - 1 {
        assert(earlier.push(host_of(members[m], groupname)).last() == host_of(
            members[m],
            groupname,
        ));
    } else {
        lemma_valid_member_kept(members.drop_last(), groupname, m);
        let at = choose|k: int|
            0 <= k < earlier.len() && earlier[k] == host_of(members[m], groupname);
        assert(valid_hosts(members, groupname)[at] == earlier[at]);
    }
}

/// Each host taken from a group's members is the host of a valid member.
pub proof fn lemma_kept_member_valid(members: Seq<MemberView>, groupname: Seq<char>, k: int)
    requires
        0 <= k < valid_hosts(members, groupname).len(),
    ensures
        exists|m: int|
            0 <= m < members.len() && members[m].valid && valid_hosts(members, groupname)[k]
                == host_of(#[trigger] members[m], groupname),
    decreases members.len(),
{
    let earlier = valid_hosts(members.drop_last(), groupname);
    if k < earlier.len() {
        lemma_kept_member_valid(members.drop_last(), groupname, k);
        let m = choose|m: int|
            0 <= m < members.drop_last().len() && members.drop_last()[m].valid && earlier[k]
                == host_of(#[trigger] members.drop_last()[m], groupname);
        assert(members[m] == members.drop_last()[m]);
    } else {
        assert(members[members.len() - 1].valid);
    }
}

/// A group's members yield exactly as many hosts as there are valid members.
pub proof fn lemma_valid_hosts_len(members: Seq<MemberView>, groupname: Seq<char>)
    ensures
        valid_hosts(members, groupname).len() == valid_count(members),
    decreases members.len(),
{
    if members.len() > 0 {
        lemma_valid_hosts_len(members.drop_last(), groupname);
    }
}

/// A member that is valid inside a valid group has its host in the directory.
pub proof fn lemma_valid_member_listed(groups: Seq<GroupView>, g: int, m: int)
    requires
        0 <= g < groups.len(),
        0 <= m < groups[g].members.len(),
        groups[g].valid,
        groups[g].members[m].valid,
    ensures
        directory(groups).contains(host_of(groups[g].members[m], groups[g].name)),
    decreases groups.len(),
{
    let host = host_of(groups[g].members[m], groups[g].name);
    let earlier = directory(groups.drop_last());
    if g == groups.len() - 1 {
        lemma_valid_member_kept(groups[g].members, groups[g].name, m);
        let part = group_hosts(groups.last());
        let at = choose|k: int| 0 <= k < part.len() && part[k] == host;
        assert(directory(groups)[earlier.len() + at] == host);
    } else {
        lemma_valid_member_listed(groups.drop_last(), g, m);
        let at = choose|k: int| 0 <= k < earlier.len() && earlier[k] == host;
        assert(directory(groups)[at] == host);
    }
}

/// Each host of the directory is the host of a member that is valid inside a
/// valid group.
pub proof fn lemma_listed_member_valid(groups: Seq<GroupView>, k: int)
    requires
        0 <= k < directory(groups).len(),
    ensures
        exists|g: int, m: int|
            0 <= g < groups.len() && 0 <= m < groups[g].members.len() && groups[g].valid
                && groups[g].members[m].valid && directory(groups)[k] == host_of(
                #[trigger] groups[g].members[m],
                groups[g].name,
            ),
    decreases groups.len(),
{
    let earlier = directory(groups.drop_last());
    if k < earlier.len() {
        lemma_listed_member_valid(groups.drop_last(), k);
        let (g, m) = choose|g: int, m: int|
            0 <= g < groups.drop_last().len() && 0 <= m < groups.drop_last()[g].members.len()
                && groups.drop_last()[g].valid && groups.drop_last()[g].members[m].valid
                && earlier[k] == host_of(
                #[trigger] groups.drop_last()[g].members[m],
                groups.drop_last()[g].name,
            );
        assert(groups[g] == groups.drop_last()[g]);
        assert(directory(groups)[k] == host_of(groups[g].members[m], groups[g].name));
    } else {
        let g = groups.len() - 1;
        let last = groups.last();
        lemma_kept_member_valid(last.members, last.name, k - earlier.len());
        let m = choose|m: int|
            0 <= m < last.members.len() && last.members[m].valid && valid_hosts(
                last.members,
                last.name,
            )[k - earlier.len()] == host_of(#[trigger] last.members[m], last.name);
        assert(directory(groups)[k] == host_of(groups[g].members[m], groups[g].name));
    }
}

/// The directory has one host for each member that is valid inside a valid
/// group, and no other.
pub proof fn lemma_directory_len(groups: Seq<GroupView>)
    ensures
        directory(groups).len() == listed_count(groups),
    decreases groups.len(),
{
    if groups.len() > 0 {
        lemma_directory_len(groups.drop_last());
        lemma_valid_hosts_len(groups.last().members, groups.last().name);
    }
}

impl Clone for Member {
    fn clone(&self) -> (copy: Self)
        ensures
            copy@ == self@,
    {
        Member {
            hostname: self.hostname.clone(),
            ip: self.ip.clone(),
            port: self.port,
            user: self.user.clone(),
            password: self.password.clone(),
            valid: self.valid,
        }
    }
}

impl Member {
    /// Whether this member is marked valid.
    pub fn valid(&self) -> (flag: bool)
        ensures
            flag == self.valid,
    {
        self.valid
    }

    /// This member written out field by field, on one line.
    pub fn describe(&self) -> (line: String)
        ensures
            line@ == member_line(self@),
    {
        let mut line = String::from_str("hostname:");
        line.append(self.hostname.as_str());
        line.append(", ip:");
        line.append(self.ip.as_str());
        line.append(", port:");
        line.append(decimal_text(self.port as u128).as_str());
        line.append(", user:");
        line.append(self.user.as_str());
        line.append(", password:");
        line.append(self.password.as_str());
        line.append(", valid:");
        line.append(truth_text(self.valid));
        line
    }
}

impl Default for Member {
    /// The member of the configuration template: unnamed, port 22, valid.
    fn default() -> (member: Self)
        ensures
            member@ == (MemberView {
                hostname: Seq::empty(),
                ip: Seq::empty(),
                port: 22,
                user: "cx"@,
                password: "chaxun"@,
                valid: true,
            }),
    {
        Member {
            hostname: String::new(),
            ip: String::new(),
            port: 22,
            user: String::from_str("cx"),
            password: String::from_str("chaxun"),
            valid: true,
        }
    }
}

impl SessionInfo {
    /// The home directory of this host's user.
    pub fn home_buf_path(&self) -> (path: String)
        ensures
            path@ == home_dir(self@.user),
    {
        if same_text(self.user.as_str(), "root") {
            String::from_str("/root")
        } else {
            let mut path = String::from_str("/home/");
            path.append(self.user.as_str());
            path
        }
    }

    /// The short name of this host: hostname, `_`, ip.
    pub fn hostname_ip(&self) -> (label: String)
        ensures
            label@ == host_label(self@),
    {
        let mut label = self.hostname.clone();
        label.append("_");
        label.append(self.ip.as_str());
        label
    }

    /// Whether this host can be reached at a socket address.
    pub fn has_socket_address(&self) -> (ok: bool)
        ensures
            ok == is_socket_address(self@),
    {
        self.port <= MAX_PORT && is_ipv4_text(self.ip.as_str())
    }

    /// The address at which this host is reached, as text: ip, `:`, port.
    /// Only a host that can be reached at a socket address has one.
    pub fn to_socket_addrs(&self) -> (address: String)
        requires
            is_socket_address(self@),
        ensures
            address@ == socket_address(self@),
    {
        let mut address = self.ip.clone();
        address.append(":");
        address.append(decimal_text(self.port as u128).as_str());
        address
    }

    /// The identity of this host, on one line: label, port, user, password.
    pub fn describe(&self) -> (line: String)
        ensures
            line@ == host_identity(self@),
    {
        let mut line = self.hostname_ip();
        line.append(", port:");
        line.append(decimal_text(self.port as u128).as_str());
        line.append(", user:");
        line.append(self.user.as_str());
        line.append(", password:");
        line.append(self.password.as_str());
        line
    }
}

impl Clone for SessionInfo {
    fn clone(&self) -> (copy: Self)
        ensures
            copy@ == self@,
    {
        SessionInfo {
            hostname: self.hostname.clone(),
            ip: self.ip.clone(),
            port: self.port,
            user: self.user.clone(),
            password: self.password.clone(),
            groupname: self.groupname.clone(),
        }
    }
}

/// Several members under one name, switched on or off together.
#[derive(Debug)]
pub struct Group {
    name: String,
    members: Vec<Member>,
    valid: bool,
}

/// What a `Group` holds, as mathematical values.
pub struct GroupView {
    pub name: Seq<char>,
    pub members: Seq<MemberView>,
    pub valid: bool,
}

impl View for Group {
    type V = GroupView;

    closed spec fn view(&self) -> GroupView {
        GroupView { name: self.name@, members: member_views(self.members@), valid: self.valid }
    }
}

impl Group {
    /// A group with the given name, members and flag.
    pub fn new(name: String, members: Vec<Member>, valid: bool) -> (group: Self)
        ensures
            group@ == (GroupView { name: name@, members: member_views(members@), valid }),
    {
        Group { name, members, valid }
    }

    /// The name of this group.
    pub fn name(&self) -> (name: &String)
        ensures
            name@ == self@.name,
    {
        &self.name
    }

    /// The members of this group, valid or not.
    pub fn members(&self) -> (members: &Vec<Member>)
        ensures
            member_views(members@) == self@.members,
    {
        &self.members
    }

    /// The hosts of this group's valid members, in the members' order; nothing
    /// at all when the group itself is switched off.
    pub fn valid_session_info(&self) -> (found: Option<Vec<SessionInfo>>)
        ensures
            self@.valid <==> found is Some,
            found matches Some(hosts) ==> host_views(hosts@) == valid_hosts(
                self@.members,
                self@.name,
            ),
    {
        if self.valid {
            let mut hosts: Vec<SessionInfo> = Vec::new();
            let mut i: usize = 0;
            while i < self.members.len()
                invariant
                    i <= self.members.len(),
                    host_views(hosts@) == valid_hosts(
                        member_views(self.members@).take(i as int),
                        self.name@,
                    ),
                decreases self.members.len() - i,
            {
                let member = &self.members[i];
                proof {
                    let all = member_views(self.members@);
                    assert(all.take(i + 1).drop_last() == all.take(i as int));
                    assert(all.take(i + 1).last() == member@);
                }
                if member.valid() {
                    let host = SessionInfo {
                        hostname: member.hostname.clone(),
                        ip: member.ip.clone(),
                        port: member.port,
                        user: member.user.clone(),
                        password: member.password.clone(),
                        groupname: self.name.clone(),
                    };
                    assert(host@ == host_of(member@, self.name@));
                    let ghost before = hosts@;
                    hosts.push(host);
                    assert(host_views(hosts@) == host_views(before).push(host@));
                }
                i += 1;
            }
            proof {
                let all = member_views(self.members@);
                assert(all.take(i as int) == all);
            }
            Some(hosts)
        } else {
            None
        }
    }

    /// Whether this group is switched on.
    pub fn valid(&self) -> (flag: bool)
        ensures
            flag == self@.valid,
    {
        self.valid
    }
}

impl Clone for Group {
    fn clone(&self) -> (copy: Self)
        ensures
            copy@ == self@,
    {
        let mut members: Vec<Member> = Vec::new();
        let mut i: usize = 0;
        while i < self.members.len()
            invariant
                i <= self.members.len(),
                members.len() == i,
                forall|k: int| 0 <= k < i ==> members[k]@ == self.members[k]@,
            decreases self.members.len() - i,
        {
            members.push(self.members[i].clone());
            i += 1;
        }
        assert(member_views(members@) == member_views(self.members@));
        Group { name: self.name.clone(), members, valid: self.valid }
    }
}

impl Default for Group {
    /// The group of the configuration template: unnamed, valid, with the
    /// template member as its only member.
    fn default() -> (group: Self)
        ensures
            group@.name == Seq::<char>::empty(),
            group@.valid,
            group@.members.len() == 1,
            group@.members[0] == (MemberView {
                hostname: Seq::empty(),
                ip: Seq::empty(),
                port: 22,
                user: "cx"@,
                password: "chaxun"@,
                valid: true,
            }),
    {
        let mut members: Vec<Member> = Vec::new();
        members.push(Member::default());
        Group { name: String::new(), members, valid: true }
    }
}

/// The whole configuration: every group, in the order written.
#[derive(Debug)]
pub struct Server {
    groups: Vec<Group>,
}

impl View for Server {
    type V = Seq<GroupView>;

    closed spec fn view(&self) -> Seq<GroupView> {
        group_views(self.groups@)
    }
}

impl Server {
    /// A configuration with the given groups.
    pub fn new(groups: Vec<Group>) -> (server: Self)
        ensures
            server@ == group_views(groups@),
    {
        Server { groups }
    }

    /// The groups of this configuration, valid or not.
    pub fn groups(&self) -> (groups: &Vec<Group>)
        ensures
            group_views(groups@) == self@,
    {
        &self.groups
    }

    /// The host directory of this configuration, or `None` when it would be
    /// empty.
    pub fn valid_session_info(&self) -> (found: Option<Vec<SessionInfo>>)
        ensures
            directory(self@).len() == 0 <==> found is None,
            found matches Some(hosts) ==> host_views(hosts@) == directory(self@),
    {
        let mut hosts: Vec<SessionInfo> = Vec::new();
        let mut i: usize = 0;
        while i < self.groups.len()
            invariant
                i <= self.groups.len(),
                host_views(hosts@) == directory(group_views(self.groups@).take(i as int)),
            decreases self.groups.len() - i,
        {
            let group = &self.groups[i];
            proof {
                let all = group_views(self.groups@);
                assert(all.take(i + 1).drop_last() == all.take(i as int));
                assert(all.take(i + 1).last() == group@);
            }
            if group.valid() {
                if let Some(mut part) = group.valid_session_info() {
                    let ghost before = hosts@;
                    let ghost added = part@;
                    hosts.append(&mut part);
                    assert(host_views(hosts@) == host_views(before) + host_views(added));
                }
            }
            i += 1;
        }
        proof {
            let all = group_views(self.groups@);
            assert(all.take(i as int) == all);
        }
        if hosts.is_empty() {
            None
        } else {
            Some(hosts)
        }
    }
}

impl Clone for Server {
    fn clone(&self) -> (copy: Self)
        ensures
            copy@ == self@,
    {
        let mut groups: Vec<Group> = Vec::new();
        let mut i: usize = 0;
        while i < self.groups.len()
            invariant
                i <= self.groups.len(),
                groups.len() == i,
                forall|k: int| 0 <= k < i ==> groups[k]@ == self.groups[k]@,
            decreases self.groups.len() - i,
        {
            groups.push(self.groups[i].clone());
            i += 1;
        }
        assert(group_views(groups@) == group_views(self.groups@));
        Server { groups }
    }
}

impl Default for Server {
    /// The configuration template: the template group alone.
    fn default() -> (server: Self)
        ensures
            server@.len() == 1,
            server@[0].name == Seq::<char>::empty(),
            server@[0].valid,
            server@[0].members.len() == 1,
            server@[0].members[0] == (MemberView {
                hostname: Seq::empty(),
                ip: Seq::empty(),
                port: 22,
                user: "cx"@,
                password: "chaxun"@,
                valid: true,
            }),
    {
        let mut groups: Vec<Group> = Vec::new();
        groups.push(Group::default());
        Server { groups }
    }
}

} // verus!
