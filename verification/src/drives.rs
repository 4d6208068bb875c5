//! The drive a file dialog works on: from the key of the panel's source
//! (a WebDAV or FTP connection, a peer's shared resource, or a local path)
//! the name shown, its icon, and whether it is a favourite.
use vstd::prelude::*;
use crate::text::{
    chars_of, string_from_chars, str_eq, extend_str, extend_chars, starts_with, has_prefix, lowercase,
    to_lowercase, decimal, decimal_string, split_on, split_chars, lemma_split_nonempty, char_uppercase,
    char_to_uppercase,
};
use crate::i18n::{Catalog, CatalogView, translate, interpolate, args_view};

verus! {

/// A saved WebDAV or FTP connection.
pub struct FtpConnection {
    pub name: String,
    pub protocol: String,
    pub host: String,
    pub port: u16,
    pub user: String,
}

/// A saved peer.
pub struct PeerConnection {
    pub name: String,
    pub peer_id: String,
}

/// A mounted volume: where it is mounted and its name.
pub struct MountPoint {
    pub path: String,
    pub name: String,
}

/// What a dialog shows of a drive.
pub struct DriveDetails {
    pub name: String,
    pub icon: String,
    pub is_favorite: bool,
}

/// What a drive lookup may learn from the peer network: the name it knows
/// for the peer, and for the resource.
pub struct PeerKnowledge {
    pub peer_name: Option<String>,
    pub resource_name: Option<String>,
}

/// The key of a WebDAV connection.
pub open spec fn webdav_key(c: FtpConnection) -> Seq<char> {
    "webdav://"@ + c.user@ + "@"@ + c.host@
}

/// The key of an FTP connection.
pub open spec fn ftp_key(c: FtpConnection) -> Seq<char> {
    lowercase(c.protocol@) + "://"@ + c.user@ + "@"@ + c.host@ + ":"@ + decimal(c.port as nat)
}

/// The name of the first connection whose key (by `key_of`) is `key`.
pub open spec fn connection_name(conns: Seq<FtpConnection>, key: Seq<char>, webdav: bool) -> Option<Seq<char>>
    decreases conns.len(),
{
    if conns.len() == 0 {
        None
    } else if (if webdav { webdav_key(conns[0]) } else { ftp_key(conns[0]) }) == key {
        Some(conns[0].name@)
    } else {
        connection_name(conns.drop_first(), key, webdav)
    }
}

/// The name of the first saved peer with this id.
pub open spec fn peer_name(peers: Seq<PeerConnection>, id: Seq<char>) -> Option<Seq<char>>
    decreases peers.len(),
{
    if peers.len() == 0 {
        None
    } else if peers[0].peer_id@ == id {
        Some(peers[0].name@)
    } else {
        peer_name(peers.drop_first(), id)
    }
}

/// A peer id shortened for display: the first six and last six characters
/// around `...` when it is longer than twelve.
pub open spec fn short_peer_id(id: Seq<char>) -> Seq<char> {
    if id.len() > 12 { id.take(6) + "..."@ + id.skip(id.len() - 6) } else { id }
}

/// `s` with every `\` turned into `/`.
pub open spec fn slashes(s: Seq<char>) -> Seq<char> {
    s.map_values(|c: char| if c == '\\' { '/' } else { c })
}

/// The mount with the longest path that starts the given path (the first
/// of equal length).
pub open spec fn best_mount(mounts: Seq<MountPoint>, path: Seq<char>) -> Option<int>
    decreases mounts.len(),
{
    if mounts.len() == 0 {
        None
    } else {
        let prev = best_mount(mounts.drop_last(), path);
        let i = mounts.len() - 1;
        if starts_with(path, mounts[i].path@) && (match prev { Some(j) => mounts[i].path@.len() > mounts[j].path@.len(), None => true }) {
            Some(i)
        } else {
            prev
        }
    }
}

/// Name, icon and favourite key of a peer's resource `p2p://peer@resource`:
/// the resource's name (as the peer network knows it, else its id) and the
/// peer's (a saved peer's name, else the network's, else the shortened id).
pub open spec fn p2p_spec(key: Seq<char>, peers: Seq<PeerConnection>, known: PeerKnowledge) -> (Seq<char>, Seq<char>, Seq<char>) {
    let parts = split_on(key.skip(6), '@');
    if parts.len() == 2 {
        let (peer, res) = (parts[0], parts[1]);
        let res_name = match known.resource_name { Some(n) => n@, None => res };
        let who = match peer_name(peers, peer) {
            Some(n) => n,
            None => match known.peer_name { Some(n) => n@, None => short_peer_id(peer) },
        };
        (res_name + " ("@ + who + ")"@, "/com/fm-ui/gtk/connect.svg"@, key)
    } else {
        (key, "/com/fm-ui/gtk/connect.svg"@, key)
    }
}

/// The part of a path before its first `/` or `\`.
pub open spec fn before_first_sep(s: Seq<char>) -> Seq<char>
    decreases s.len(),
{
    if s.len() == 0 || s[0] == '/' || s[0] == '\\' {
        Seq::empty()
    } else {
        seq![s[0]] + before_first_sep(s.drop_first())
    }
}

/// Name, icon and favourite key of a local path `local_fs:path`: the home
/// directory (and anything below it), else the mounted volume holding it,
/// else, on Windows, the disk its first component names (`C:`), else the
/// system root.
pub open spec fn local_spec(c: CatalogView, key: Seq<char>, home: Seq<char>, mounts: Seq<MountPoint>, windows: bool) -> (Seq<char>, Seq<char>, Seq<char>) {
    let path = key.skip(9);
    let norm = slashes(path);
    let h = slashes(home);
    if path == "~"@ || norm == h || starts_with(norm, h + "/"@) {
        (translate(c, "fm.user_home"@), "/com/fm-ui/gtk/at-home.svg"@, "local_fs:~"@)
    } else {
        match best_mount(mounts, norm) {
            Some(i) => (mounts[i].name@, "/com/fm-ui/gtk/ssd.svg"@, "local_fs:"@ + mounts[i].path@),
            None => {
                let first = before_first_sep(path);
                if windows && first.len() > 0 && first.last() == ':' {
                    (interpolate(translate(c, "fm.disk"@), seq![("letter"@, char_uppercase(first[0]))]),
                        "/com/fm-ui/gtk/ssd.svg"@, "local_fs:"@ + first)
                } else {
                    (translate(c, "fm.system_root"@), "/com/fm-ui/gtk/home.svg"@, "local_fs:/"@)
                }
            },
        }
    }
}

/// Name, icon and favourite key of a drive; the favourite mark is whether
/// the favourite key is among the favourites.
pub open spec fn drive_spec(c: CatalogView, key: Seq<char>, ftp: Seq<FtpConnection>, peers: Seq<PeerConnection>,
    known: PeerKnowledge, home: Seq<char>, mounts: Seq<MountPoint>, windows: bool) -> (Seq<char>, Seq<char>, Seq<char>)
{
    if starts_with(key, "webdav://"@) {
        (match connection_name(ftp, key, true) { Some(n) => n, None => key }, "/com/fm-ui/gtk/netdrive.svg"@, key)
    } else if starts_with(key, "ftp://"@) || starts_with(key, "sftp://"@) {
        (match connection_name(ftp, key, false) { Some(n) => n, None => key }, "/com/fm-ui/gtk/ftp.svg"@, key)
    } else if starts_with(key, "p2p://"@) {
        p2p_spec(key, peers, known)
    } else if starts_with(key, "local_fs:"@) {
        local_spec(c, key, home, mounts, windows)
    } else {
        (translate(c, "fm.local_filesystem"@), "/com/fm-ui/gtk/ssd.svg"@, key)
    }
}

fn seq_skip(s: &[char], k: usize) -> (res: Vec<char>)
    requires
        k <= s@.len(),
    ensures
        res@ == s@.skip(k as int),
{
    let mut out: Vec<char> = Vec::new();
    let mut i: usize = k;
    while i < s.len()
        invariant
            k <= i <= s@.len(),
            out@ == s@.subrange(k as int, i as int),
        decreases s.len() - i,
    {
        out.push(s[i]);
        assert(s@.subrange(k as int, i + 1) =~= s@.subrange(k as int, i as int).push(s@[i as int]));
        i += 1;
    }
    assert(s@.subrange(k as int, s@.len() as int) =~= s@.skip(k as int));
    out
}

fn with_forward_slashes(s: &[char]) -> (res: Vec<char>)
    ensures
        res@ == slashes(s@),
{
    let mut out: Vec<char> = Vec::new();
    let mut i: usize = 0;
    while i < s.len()
        invariant
            i <= s@.len(),
            out@ == slashes(s@.take(i as int)),
        decreases s.len() - i,
    {
        let c = if s[i] == '\\' { '/' } else { s[i] };
        out.push(c);
        assert(slashes(s@.take(i + 1)) =~= slashes(s@.take(i as int)).push(c));
        i += 1;
    }
    assert(s@.take(s@.len() as int) =~= s@);
    out
}

fn find_connection(conns: &[FtpConnection], key: &str, webdav: bool) -> (res: Option<String>)
    ensures
        match res {
            Some(n) => connection_name(conns@, key@, webdav) == Some(n@),
            None => connection_name(conns@, key@, webdav) is None,
        },
{
    let mut i: usize = 0;
    assert(conns@.skip(0) =~= conns@);
    while i < conns.len()
        invariant
            i <= conns@.len(),
            connection_name(conns@, key@, webdav) == connection_name(conns@.skip(i as int), key@, webdav),
        decreases conns.len() - i,
    {
        let c = &conns[i];
        let mut k: Vec<char> = Vec::new();
        if webdav {
            extend_str(&mut k, "webdav://");
        } else {
            let p = to_lowercase(c.protocol.as_str());
            extend_str(&mut k, p.as_str());
            extend_str(&mut k, "://");
        }
        extend_str(&mut k, c.user.as_str());
        extend_str(&mut k, "@");
        extend_str(&mut k, c.host.as_str());
        if !webdav {
            extend_str(&mut k, ":");
            let port = decimal_string(c.port as u64);
            extend_str(&mut k, port.as_str());
        }
        assert(conns@.skip(i as int)[0] == conns@[i as int]);
        if webdav {
            assert(k@ =~= webdav_key(conns@[i as int]));
        } else {
            assert(k@ =~= ftp_key(conns@[i as int]));
        }
        let ks = string_from_chars(k.as_slice());
        if str_eq(ks.as_str(), key) {
            return Some(c.name.clone());
        }
        assert(conns@.skip(i as int).drop_first() =~= conns@.skip(i + 1));
        i += 1;
    }
    None
}

fn find_peer(peers: &[PeerConnection], id: &str) -> (res: Option<String>)
    ensures
        match res {
            Some(n) => peer_name(peers@, id@) == Some(n@),
            None => peer_name(peers@, id@) is None,
        },
{
    let mut i: usize = 0;
    assert(peers@.skip(0) =~= peers@);
    while i < peers.len()
        invariant
            i <= peers@.len(),
            peer_name(peers@, id@) == peer_name(peers@.skip(i as int), id@),
        decreases peers.len() - i,
    {
        assert(peers@.skip(i as int)[0] == peers@[i as int]);
        if str_eq(peers[i].peer_id.as_str(), id) {
            return Some(peers[i].name.clone());
        }
        assert(peers@.skip(i as int).drop_first() =~= peers@.skip(i + 1));
        i += 1;
    }
    None
}

fn find_best_mount(mounts: &[MountPoint], path: &[char]) -> (res: Option<usize>)
    ensures
        res == (match best_mount(mounts@, path@) { Some(i) => Some(i as usize), None => None::<usize> }),
        res matches Some(i) ==> i < mounts@.len(),
{
    let mut best: Option<usize> = None;
    let mut i: usize = 0;
    assert(mounts@.take(0) =~= Seq::<MountPoint>::empty());
    while i < mounts.len()
        invariant
            i <= mounts@.len(),
            best == (match best_mount(mounts@.take(i as int), path@) { Some(j) => Some(j as usize), None => None::<usize> }),
            best matches Some(j) ==> j < i,
        decreases mounts.len() - i,
    {
        let mp = chars_of(mounts[i].path.as_str());
        assert(mounts@.take(i + 1).drop_last() =~= mounts@.take(i as int));
        assert(mounts@.take(i + 1)[i as int] == mounts@[i as int]);
        proof {
            lemma_best_mount_bound(mounts@.take(i as int), path@);
            if let Some(j) = best {
                assert(mounts@.take(i + 1)[j as int] == mounts@[j as int]);
            }
        }
        if has_prefix(path, mp.as_slice()) {
            let longer = match best {
                Some(j) => {
                    let bp = chars_of(mounts[j].path.as_str());
                    mp.len() > bp.len()
                },
                None => true,
            };
            if longer {
                best = Some(i);
            }
        }
        i += 1;
    }
    assert(mounts@.take(mounts@.len() as int) =~= mounts@);
    best
}

proof fn lemma_best_mount_bound(mounts: Seq<MountPoint>, path: Seq<char>)
    ensures
        best_mount(mounts, path) matches Some(i) ==> 0 <= i < mounts.len(),
    decreases mounts.len(),
{
    if mounts.len() > 0 {
        lemma_best_mount_bound(mounts.drop_last(), path);
    }
}

fn p2p_details(key: &str, peers: &[PeerConnection], known: PeerKnowledge) -> (res: (String, String, String))
    requires
        starts_with(key@, "p2p://"@),
    ensures
        (res.0@, res.1@, res.2@) == p2p_spec(key@, peers@, known),
{
    proof { reveal_strlit("p2p://"); }
    let k = chars_of(key);
    let rest = seq_skip(k.as_slice(), 6);
    let parts = split_chars(rest.as_slice(), '@');
    if parts.len() != 2 {
        return (key.to_owned(), "/com/fm-ui/gtk/connect.svg".to_owned(), key.to_owned());
    }
    let peer = string_from_chars(parts[0].as_slice());
    let res_id = string_from_chars(parts[1].as_slice());
    let res_name = match known.resource_name { Some(n) => n, None => res_id };
    let who = match find_peer(peers, peer.as_str()) {
        Some(n) => n,
        None => match known.peer_name {
            Some(n) => n,
            None => shorten_peer_id(peer.as_str()),
        },
    };
    let mut n = chars_of(res_name.as_str());
    extend_str(&mut n, " (");
    extend_str(&mut n, who.as_str());
    extend_str(&mut n, ")");
    (string_from_chars(n.as_slice()), "/com/fm-ui/gtk/connect.svg".to_owned(), key.to_owned())
}

/// A peer id shortened for display.
pub fn shorten_peer_id(id: &str) -> (res: String)
    ensures
        res@ == short_peer_id(id@),
{
    let pc = chars_of(id);
    if pc.len() <= 12 {
        return id.to_owned();
    }
    let mut t: Vec<char> = Vec::new();
    let mut j: usize = 0;
    while j < 6
        invariant
            j <= 6,
            pc@.len() > 12,
            t@ == pc@.take(j as int),
        decreases 6 - j,
    {
        t.push(pc[j]);
        assert(pc@.take(j + 1) =~= pc@.take(j as int).push(pc@[j as int]));
        j += 1;
    }
    extend_str(&mut t, "...");
    let tail = seq_skip(pc.as_slice(), pc.len() - 6);
    extend_chars(&mut t, tail.as_slice());
    string_from_chars(t.as_slice())
}

fn local_details(catalog: &Catalog, key: &str, home: &str, mounts: &[MountPoint], windows: bool) -> (res: (String, String, String))
    requires
        starts_with(key@, "local_fs:"@),
    ensures
        (res.0@, res.1@, res.2@) == local_spec(catalog@, key@, home@, mounts@, windows),
{
    proof {
        reveal_strlit("local_fs:");
        reveal_strlit("~");
        reveal_strlit("/");
    }
    let k = chars_of(key);
    let path = seq_skip(k.as_slice(), 9);
    let norm = with_forward_slashes(path.as_slice());
    let hc = chars_of(home);
    let h = with_forward_slashes(hc.as_slice());
    let mut hs = with_forward_slashes(hc.as_slice());
    extend_str(&mut hs, "/");
    let path_s = string_from_chars(path.as_slice());
    let norm_s = string_from_chars(norm.as_slice());
    let h_s = string_from_chars(h.as_slice());
    if str_eq(path_s.as_str(), "~") || str_eq(norm_s.as_str(), h_s.as_str()) || has_prefix(norm.as_slice(), hs.as_slice()) {
        return (catalog.tr("fm.user_home"), "/com/fm-ui/gtk/at-home.svg".to_owned(), "local_fs:~".to_owned());
    }
    proof { lemma_best_mount_bound(mounts@, norm@); }
    match find_best_mount(mounts, norm.as_slice()) {
        Some(i) => {
            let mut fk = chars_of("local_fs:");
            extend_str(&mut fk, mounts[i].path.as_str());
            (mounts[i].name.clone(), "/com/fm-ui/gtk/ssd.svg".to_owned(), string_from_chars(fk.as_slice()))
        },
        None => {
            let first = before_first_sep_chars(path.as_slice());
            if windows && first.len() > 0 && first[first.len() - 1] == ':' {
                let letter = char_to_uppercase(first[0]);
                let args = [("letter", letter.as_str())];
                let name = catalog.trf("fm.disk", &args);
                assert(args_view(args@) =~= seq![("letter"@, char_uppercase(first@[0]))]);
                let mut fk = chars_of("local_fs:");
                extend_chars(&mut fk, first.as_slice());
                (name, "/com/fm-ui/gtk/ssd.svg".to_owned(), string_from_chars(fk.as_slice()))
            } else {
                (catalog.tr("fm.system_root"), "/com/fm-ui/gtk/home.svg".to_owned(), "local_fs:/".to_owned())
            }
        },
    }
}

fn before_first_sep_chars(s: &[char]) -> (res: Vec<char>)
    ensures
        res@ == before_first_sep(s@),
{
    let mut out: Vec<char> = Vec::new();
    let mut i: usize = 0;
    assert(s@.skip(0) =~= s@);
    assert(out@ + before_first_sep(s@) =~= before_first_sep(s@));
    while i < s.len() && s[i] != '/' && s[i] != '\\'
        invariant
            i <= s@.len(),
            out@ + before_first_sep(s@.skip(i as int)) == before_first_sep(s@),
        decreases s.len() - i,
    {
        assert(s@.skip(i as int)[0] == s@[i as int]);
        assert(s@.skip(i as int).drop_first() =~= s@.skip(i + 1));
        assert(out@.push(s@[i as int]) + before_first_sep(s@.skip(i + 1)) =~= out@ + (seq![s@[i as int]] + before_first_sep(s@.skip(i + 1))));
        out.push(s[i]);
        i += 1;
    }
    if i < s.len() {
        assert(s@.skip(i as int)[0] == s@[i as int]);
    } else {
        assert(s@.skip(i as int) =~= Seq::<char>::empty());
    }
    assert(out@ + Seq::<char>::empty() =~= out@);
    out
}

fn contains_string(v: &[String], s: &str) -> (res: bool)
    ensures
        res == crate::paths::strings_view(v@).contains(s@),
{
    let mut i: usize = 0;
    while i < v.len()
        invariant
            i <= v@.len(),
            forall|k: int| 0 <= k < i ==> v@[k]@ != s@,
        decreases v.len() - i,
    {
        if str_eq(v[i].as_str(), s) {
            assert(crate::paths::strings_view(v@)[i as int] == s@);
            return true;
        }
        i += 1;
    }
    assert forall|k: int| 0 <= k < v@.len() implies #[trigger] crate::paths::strings_view(v@)[k] != s@ by {
        assert(crate::paths::strings_view(v@)[k] == v@[k]@);
    }
    false
}

/// Name, icon and favourite mark of the drive with this key. `known` is
/// what the peer network knows of a peer's and a resource's names, `home`
/// the user's home directory, `mounts` the mounted volumes, and `windows`
/// whether paths name disks by letter.
pub fn resolve_drive_details(catalog: &Catalog, key: &str, favorites: &[String], ftp: &[FtpConnection],
    peers: &[PeerConnection], known: PeerKnowledge, home: &str, mounts: &[MountPoint], windows: bool) -> (res: DriveDetails)
    ensures
        ({
            let (name, icon, fav_key) = drive_spec(catalog@, key@, ftp@, peers@, known, home@, mounts@, windows);
            &&& res.name@ == name
            &&& res.icon@ == icon
            &&& res.is_favorite == crate::paths::strings_view(favorites@).contains(fav_key)
        }),
{
    let k = chars_of(key);
    let (name, icon, fav_key): (String, String, String) = if has_prefix(k.as_slice(), chars_of("webdav://").as_slice()) {
        let n = match find_connection(ftp, key, true) { Some(n) => n, None => key.to_owned() };
        (n, "/com/fm-ui/gtk/netdrive.svg".to_owned(), key.to_owned())
    } else if has_prefix(k.as_slice(), chars_of("ftp://").as_slice()) || has_prefix(k.as_slice(), chars_of("sftp://").as_slice()) {
        let n = match find_connection(ftp, key, false) { Some(n) => n, None => key.to_owned() };
        (n, "/com/fm-ui/gtk/ftp.svg".to_owned(), key.to_owned())
    } else if has_prefix(k.as_slice(), chars_of("p2p://").as_slice()) {
        p2p_details(key, peers, known)
    } else if has_prefix(k.as_slice(), chars_of("local_fs:").as_slice()) {
        local_details(catalog, key, home, mounts, windows)
    } else {
        (catalog.tr("fm.local_filesystem"), "/com/fm-ui/gtk/ssd.svg".to_owned(), key.to_owned())
    };
    let is_favorite = contains_string(favorites, fav_key.as_str());
    DriveDetails { name, icon, is_favorite }
}

} // verus!
