//! The volume driver of macOS as far as it can be computed: what the list
//! of attached images says, and the arguments of the commands.

use vstd::prelude::*;
use vstd::string::*;

verus! {

/// One entity of an attached image: a device, and where it is mounted.
#[derive(Debug)]
pub struct HdiUtilInfoImageSystemEntity {
    pub content_hint: String,
    pub dev_entry: String,
    pub mount_point: String,
}

/// One attached image.
#[derive(Debug)]
pub struct HdiUtilInfoImage {
    pub autodiskmount: bool,
    pub blockcount: isize,
    pub blocksize: isize,
    pub hdid_pid: isize,
    pub icon_path: String,
    pub image_encrypted: bool,
    pub image_path: String,
    pub image_type: String,
    pub owner_uid: isize,
    pub removable: bool,
    pub system_entities: Vec<HdiUtilInfoImageSystemEntity>,
    pub writeable: bool,
}

/// What `hdiutil info` reports.
#[derive(Debug)]
pub struct HdiUtilInfo {
    pub framework: String,
    pub revision: String,
    pub images: Vec<HdiUtilInfoImage>,
    pub vendor: String,
}

/// The first entity of the image is the device `devname` or is mounted at
/// `devname`.
pub open spec fn image_is(image: HdiUtilInfoImage, devname: Seq<char>) -> bool {
    image.system_entities@.len() > 0 && (image.system_entities@[0].dev_entry@ == devname
        || image.system_entities@[0].mount_point@ == devname)
}

/// Some image of the report is the device or the mount point `devname`.
pub open spec fn listed(info: HdiUtilInfo, devname: Seq<char>) -> bool {
    exists|i: int| 0 <= i < info.images@.len() && image_is(#[trigger] info.images@[i], devname)
}

/// The mount point of the volume of that name.
pub open spec fn volume_path(name: Seq<char>) -> Seq<char> {
    "/Volumes/"@ + name
}

/// The character of a digit below ten.
pub open spec fn digit(d: int) -> char {
    if d == 0 {
        '0'
    } else if d == 1 {
        '1'
    } else if d == 2 {
        '2'
    } else if d == 3 {
        '3'
    } else if d == 4 {
        '4'
    } else if d == 5 {
        '5'
    } else if d == 6 {
        '6'
    } else if d == 7 {
        '7'
    } else if d == 8 {
        '8'
    } else {
        '9'
    }
}

/// The digits of a natural number in base ten, without leading zeros.
pub open spec fn digits(n: nat) -> Seq<char>
    decreases n,
{
    if n < 10 {
        seq![digit(n as int)]
    } else {
        digits(n / 10) + seq![digit((n % 10) as int)]
    }
}

/// An integer in base ten, with `-` in front where it is negative.
pub open spec fn decimal(i: int) -> Seq<char> {
    if i < 0 {
        seq!['-'] + digits((-i) as nat)
    } else {
        digits(i as nat)
    }
}

/// The name of a RAM image of that size.
pub open spec fn ram_image(size: int) -> Seq<char> {
    "ram://"@ + decimal(size)
}

fn digit_text(d: u128) -> (s: &'static str)
    requires
        d < 10,
    ensures
        s@ == seq![digit(d as int)],
{
    proof {
        reveal_strlit("0");
        reveal_strlit("1");
        reveal_strlit("2");
        reveal_strlit("3");
        reveal_strlit("4");
        reveal_strlit("5");
        reveal_strlit("6");
        reveal_strlit("7");
        reveal_strlit("8");
        reveal_strlit("9");
    }
    let s = if d == 0 {
        "0"
    } else if d == 1 {
        "1"
    } else if d == 2 {
        "2"
    } else if d == 3 {
        "3"
    } else if d == 4 {
        "4"
    } else if d == 5 {
        "5"
    } else if d == 6 {
        "6"
    } else if d == 7 {
        "7"
    } else if d == 8 {
        "8"
    } else {
        "9"
    };
    assert(s@ =~= seq![digit(d as int)]);
    s
}

fn decimal_text(n: isize) -> (s: String)
    ensures
        s@ == decimal(n as int),
{
    let negative = n < 0;
    let whole: u128 = if negative {
        (-(n as i128)) as u128
    } else {
        n as u128
    };
    let mut out = String::from_str(digit_text(whole % 10));
    let mut rest: u128 = whole / 10;
    while rest > 0
        invariant
            rest > 0 ==> digits(whole as nat) == digits(rest as nat) + out@,
            rest == 0 ==> digits(whole as nat) == out@,
        decreases rest,
    {
        let ghost before = out@;
        let d: u128 = rest % 10;
        out = String::from_str(digit_text(d)).concat(out.as_str());
        assert(digits(rest as nat) + before =~= if rest < 10 {
            seq![digit(d as int)] + before
        } else {
            digits((rest / 10) as nat) + (seq![digit(d as int)] + before)
        });
        rest = rest / 10;
    }
    if negative {
        proof {
            reveal_strlit("-");
            assert("-"@ =~= seq!['-']);
        }
        String::from_str("-").concat(out.as_str())
    } else {
        out
    }
}

fn same(a: &str, b: &str) -> (r: bool)
    ensures
        r == (a@ == b@),
{
    String::from_str(a) == String::from_str(b)
}

/// The command that lists, attaches and detaches images.
pub struct HdiUtil {}

impl HdiUtil {
    /// Whether the report lists `devname` as a device or as a mount point.
    pub fn exist(info: &HdiUtilInfo, devname: &str) -> (r: bool)
        ensures
            r == listed(*info, devname@),
    {
        let n: usize = info.images.len();
        let mut i: usize = 0;
        while i < n
            invariant
                n == info.images@.len(),
                i <= n,
                forall|j: int| 0 <= j < i ==> !image_is(#[trigger] info.images@[j], devname@),
            decreases n - i,
        {
            let image = &info.images[i];
            if image.system_entities.len() > 0 {
                let entity = &image.system_entities[0];
                if same(devname, entity.dev_entry.as_str()) {
                    return true;
                }
                if same(devname, entity.mount_point.as_str()) {
                    return true;
                }
            }
            i += 1;
        }
        false
    }

    /// The mount point of the volume of that name.
    pub fn volume_path(name: &str) -> (r: String)
        ensures
            r@ == volume_path(name@),
    {
        String::from_str("/Volumes/").concat(name)
    }

    /// Whether the report lists the volume of that name.
    pub fn exist_volume(info: &HdiUtilInfo, name: &str) -> (r: bool)
        ensures
            r == listed(*info, volume_path(name@)),
    {
        let path = HdiUtil::volume_path(name);
        HdiUtil::exist(info, path.as_str())
    }

    /// The arguments that attach a RAM image of that size without mounting
    /// it.
    pub fn attach(size: isize) -> (args: Vec<String>)
        ensures
            args@.len() == 3,
            args@[0]@ == "attach"@,
            args@[1]@ == "-nomount"@,
            args@[2]@ == ram_image(size as int),
    {
        let mut args: Vec<String> = Vec::new();
        args.push(String::from_str("attach"));
        args.push(String::from_str("-nomount"));
        args.push(String::from_str("ram://").concat(decimal_text(size).as_str()));
        args
    }

    /// The arguments that detach what is mounted at `mountpoint`.
    pub fn detach(mountpoint: &str) -> (args: Vec<String>)
        ensures
            args@.len() == 3,
            args@[0]@ == "detach"@,
            args@[1]@ == "-force"@,
            args@[2]@ == mountpoint@,
    {
        let mut args: Vec<String> = Vec::new();
        args.push(String::from_str("detach"));
        args.push(String::from_str("-force"));
        args.push(String::from_str(mountpoint));
        args
    }

    /// The arguments that detach the volume of that name.
    pub fn detach_volume(name: &str) -> (args: Vec<String>)
        ensures
            args@.len() == 3,
            args@[0]@ == "detach"@,
            args@[1]@ == "-force"@,
            args@[2]@ == volume_path(name@),
    {
        let path = HdiUtil::volume_path(name);
        HdiUtil::detach(path.as_str())
    }
}

/// The command that formats and names a device.
pub struct DiskUtil {}

impl DiskUtil {
    /// The arguments that format the device at `mount_point` and name it.
    pub fn erasevolume(name: &str, mount_point: &str) -> (args: Vec<String>)
        ensures
            args@.len() == 4,
            args@[0]@ == "erasevolume"@,
            args@[1]@ == "HFS+"@,
            args@[2]@ == name@,
            args@[3]@ == mount_point@,
    {
        let mut args: Vec<String> = Vec::new();
        args.push(String::from_str("erasevolume"));
        args.push(String::from_str("HFS+"));
        args.push(String::from_str(name));
        args.push(String::from_str(mount_point));
        args
    }
}

} // verus!
