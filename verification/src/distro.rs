//! Distribution tags, mirror descriptors, and the rule that decides which
//! mirrors from a mapping file apply to the host.

use vstd::prelude::*;
use crate::text::lower_seq;
use crate::text::eq_lower;

verus! {

/// The closed set of distribution tags a mirror or a host can carry.
#[derive(Debug, Clone, Copy, PartialEq, Eq, Hash, Structural)]
pub enum Distro {
    Arch,
    Debian,
    Ubuntu,
    Kali,
    Mint,
    Manjaro,
    Docker,
    AndroidSDK,
    Unknown,
}

/// The tag an operating-system identifier (the `ID=` field of an OS
/// descriptor file) maps to, case-insensitively.
pub open spec fn distro_of_id(id: Seq<char>) -> Distro {
    if lower_seq(id) == "arch"@ {
        Distro::Arch
    } else if lower_seq(id) == "debian"@ {
        Distro::Debian
    } else if lower_seq(id) == "ubuntu"@ {
        Distro::Ubuntu
    } else if lower_seq(id) == "kali"@ {
        Distro::Kali
    } else if lower_seq(id) == "linuxmint"@ {
        Distro::Mint
    } else if lower_seq(id) == "manjaro"@ {
        Distro::Manjaro
    } else {
        Distro::Unknown
    }
}

/// The tag a free-text distribution label from a mirror mapping file maps
/// to, case-insensitively. Unrecognized labels map to `Unknown`.
pub open spec fn distro_of_label(label: Seq<char>) -> Distro {
    if lower_seq(label) == "arch"@ {
        Distro::Arch
    } else if lower_seq(label) == "debian"@ {
        Distro::Debian
    } else if lower_seq(label) == "ubuntu"@ {
        Distro::Ubuntu
    } else if lower_seq(label) == "kali"@ {
        Distro::Kali
    } else if lower_seq(label) == "mint"@ {
        Distro::Mint
    } else if lower_seq(label) == "manjaro"@ {
        Distro::Manjaro
    } else if lower_seq(label) == "docker"@ {
        Distro::Docker
    } else if lower_seq(label) == "androidsdk"@ {
        Distro::AndroidSDK
    } else {
        Distro::Unknown
    }
}

impl Distro {
    /// Map an operating-system identifier to its tag.
    pub fn from_id(id: &str) -> (r: Self)
        ensures
            r == distro_of_id(id@),
    {
        if eq_lower(id, "arch") {
            Distro::Arch
        } else if eq_lower(id, "debian") {
            Distro::Debian
        } else if eq_lower(id, "ubuntu") {
            Distro::Ubuntu
        } else if eq_lower(id, "kali") {
            Distro::Kali
        } else if eq_lower(id, "linuxmint") {
            Distro::Mint
        } else if eq_lower(id, "manjaro") {
            Distro::Manjaro
        } else {
            Distro::Unknown
        }
    }

    /// The tag's display name.
    pub fn as_str(&self) -> (r: &str)
        ensures
            r@ == name_of(*self),
    {
        match self {
            Distro::Arch => "Arch",
            Distro::Debian => "Debian",
            Distro::Ubuntu => "Ubuntu",
            Distro::Kali => "Kali",
            Distro::Mint => "Mint",
            Distro::Manjaro => "Manjaro",
            Distro::Docker => "Docker",
            Distro::AndroidSDK => "Android SDK",
            Distro::Unknown => "Unknown",
        }
    }

    /// The tag's display emoji.
    pub fn emoji(&self) -> (r: &str)
        ensures
            r@ == emoji_of(*self),
    {
        match self {
            Distro::Arch => "🏔️",
            Distro::Debian => "🌀",
            Distro::Ubuntu => "🧡",
            Distro::Kali => "🐉",
            Distro::Mint => "🍃",
            Distro::Manjaro => "💚",
            Distro::Docker => "🐳",
            Distro::AndroidSDK => "🤖",
            Distro::Unknown => "❓",
        }
    }
}

/// The display name of each tag.
pub open spec fn name_of(d: Distro) -> Seq<char> {
    match d {
        Distro::Arch => "Arch"@,
        Distro::Debian => "Debian"@,
        Distro::Ubuntu => "Ubuntu"@,
        Distro::Kali => "Kali"@,
        Distro::Mint => "Mint"@,
        Distro::Manjaro => "Manjaro"@,
        Distro::Docker => "Docker"@,
        Distro::AndroidSDK => "Android SDK"@,
        Distro::Unknown => "Unknown"@,
    }
}

/// The display emoji of each tag.
pub open spec fn emoji_of(d: Distro) -> Seq<char> {
    match d {
        Distro::Arch => "🏔️"@,
        Distro::Debian => "🌀"@,
        Distro::Ubuntu => "🧡"@,
        Distro::Kali => "🐉"@,
        Distro::Mint => "🍃"@,
        Distro::Manjaro => "💚"@,
        Distro::Docker => "🐳"@,
        Distro::AndroidSDK => "🤖"@,
        Distro::Unknown => "❓"@,
    }
}

/// One mirror to be probed: a display name, a fetch URL, and the tag of the
/// distribution it serves.
#[derive(Debug)]
pub struct Mirror {
    pub name: String,
    pub url: String,
    pub distro: Distro,
}

impl Clone for Mirror {
    fn clone(&self) -> (r: Self)
        ensures
            r == *self,
    {
        Mirror { name: self.name.clone(), url: self.url.clone(), distro: self.distro }
    }
}

/// One row of a mirror mapping file, before its free-text distribution label
/// has been interpreted.
#[derive(Debug)]
pub struct MirrorRecord {
    pub name: String,
    pub url: String,
    pub distro: String,
}

impl Clone for MirrorRecord {
    fn clone(&self) -> (r: Self)
        ensures
            r == *self,
    {
        MirrorRecord {
            name: self.name.clone(),
            url: self.url.clone(),
            distro: self.distro.clone(),
        }
    }
}

/// The mirror a record describes.
pub open spec fn mirror_of_record(r: MirrorRecord) -> Mirror {
    Mirror { name: r.name, url: r.url, distro: distro_of_label(r.distro@) }
}

/// A mirror is kept when its tag matches the host's distribution, or when it
/// is one of the two global services that apply everywhere.
pub open spec fn mirror_included(tag: Distro, host: Distro) -> bool {
    tag == host || tag == Distro::Docker || tag == Distro::AndroidSDK
}

/// The mirrors a record sequence yields for a given host, in order.
pub open spec fn selected_mirrors(records: Seq<MirrorRecord>, host: Distro) -> Seq<Mirror> {
    records.map_values(|r: MirrorRecord| mirror_of_record(r)).filter(
        |m: Mirror| mirror_included(m.distro, host),
    )
}

proof fn lemma_selected_mirrors_push(records: Seq<MirrorRecord>, r: MirrorRecord, host: Distro)
    ensures
        selected_mirrors(records.push(r), host) == if mirror_included(
            distro_of_label(r.distro@),
            host,
        ) {
            selected_mirrors(records, host).push(mirror_of_record(r))
        } else {
            selected_mirrors(records, host)
        },
{
    broadcast use vstd::seq_lib::group_seq_properties;

    let f = |rec: MirrorRecord| mirror_of_record(rec);
    let p = |m: Mirror| mirror_included(m.distro, host);
    assert(records.push(r).map_values(f) =~= records.map_values(f).push(mirror_of_record(r)));
    records.map_values(f).lemma_filter_push(mirror_of_record(r), p);
}

/// Interpret each record's label and keep the rows that apply to `host`.
pub fn select_mirrors(records: &Vec<MirrorRecord>, host: Distro) -> (out: Vec<Mirror>)
    ensures
        out@ == selected_mirrors(records@, host),
{
    let mut out: Vec<Mirror> = Vec::new();
    let mut i: usize = 0;
    proof {
        assert(records@.take(0) =~= Seq::<MirrorRecord>::empty());
        assert(selected_mirrors(records@.take(0), host) =~= Seq::<Mirror>::empty());
    }
    while i < records.len()
        invariant
            i <= records@.len(),
            out@ == selected_mirrors(records@.take(i as int), host),
        decreases records@.len() - i,
    {
        let rec: &MirrorRecord = &records[i];
        let tag: Distro = distro_from_label(&rec.distro);
        proof {
            assert(records@.take(i as int + 1) =~= records@.take(i as int).push(records@[i as int]));
            lemma_selected_mirrors_push(records@.take(i as int), records@[i as int], host);
        }
        if tag == host || tag == Distro::Docker || tag == Distro::AndroidSDK {
            out.push(Mirror { name: rec.name.clone(), url: rec.url.clone(), distro: tag });
            assert(out@ =~= selected_mirrors(records@.take(i as int + 1), host));
        }
        i = i + 1;
    }
    proof {
        assert(records@.take(records@.len() as int) =~= records@);
    }
    out
}

/// Map a free-text distribution label from a mirror mapping file to its tag.
pub fn distro_from_label(label: &str) -> (r: Distro)
    ensures
        r == distro_of_label(label@),
{
    if eq_lower(label, "arch") {
        Distro::Arch
    } else if eq_lower(label, "debian") {
        Distro::Debian
    } else if eq_lower(label, "ubuntu") {
        Distro::Ubuntu
    } else if eq_lower(label, "kali") {
        Distro::Kali
    } else if eq_lower(label, "mint") {
        Distro::Mint
    } else if eq_lower(label, "manjaro") {
        Distro::Manjaro
    } else if eq_lower(label, "docker") {
        Distro::Docker
    } else if eq_lower(label, "androidsdk") {
        Distro::AndroidSDK
    } else {
        Distro::Unknown
    }
}

} // verus!
