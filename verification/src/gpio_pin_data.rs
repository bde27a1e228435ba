//! Pin definitions of the Jetson boards and the lookup tables built from them.
//!
//! A board is described by a list of [`GpioPin`]s. [`get_data`] turns that list
//! into one channel table per numbering [`Mode`]: BOARD and BCM key a pin by its
//! header number, CVM and TegraSoc by the hash of the pin's name.
use std::collections::hash_map::DefaultHasher;
use std::collections::HashMap;
use std::hash::Hasher;
use vstd::prelude::*;
use vstd::std_specs::hash::DefaultHasherAdditionalSpecFns;
use vstd::string::StrSliceExecFns;
use vstd::utf8::{decode_utf8, encode_utf8, valid_utf8};
use crate::error::Error;

verus! {

broadcast use vstd::std_specs::hash::group_hash_axioms;

/// Pin numbering modes.
#[derive(Debug, Clone, Copy, PartialEq, Eq, Structural, Hash)]
pub enum Mode {
    BOARD,
    BCM,
    TegraSoc,
    CVM,
}

impl Mode {
    /// Every value of the type is a valid mode.
    pub fn is_valid(&self) -> (r: bool)
        ensures
            r,
    {
        match self {
            Mode::BOARD | Mode::BCM | Mode::TegraSoc | Mode::CVM => true,
        }
    }

    /// The name of the mode.
    pub open spec fn spec_name(self) -> Seq<char> {
        match self {
            Mode::BOARD => "BOARD"@,
            Mode::BCM => "BCM"@,
            Mode::TegraSoc => "TegraSoc"@,
            Mode::CVM => "CVM"@,
        }
    }

    /// Returns the name of the mode.
    pub fn to_str(&self) -> (r: &'static str)
        ensures
            r@ == self.spec_name(),
    {
        proof {
            reveal_strlit("BOARD");
            reveal_strlit("BCM");
            reveal_strlit("TegraSoc");
            reveal_strlit("CVM");
        }
        match self {
            Mode::BOARD => "BOARD",
            Mode::BCM => "BCM",
            Mode::TegraSoc => "TegraSoc",
            Mode::CVM => "CVM",
        }
    }
}

/// Direction recorded in a channel description.
#[derive(Debug, Clone, Copy, PartialEq, Eq, Structural)]
pub enum Direction {
    IN,
    OUT,
    HardPwm,
}

/// Board information of a Jetson model.
#[derive(Debug)]
pub struct JetsonInfo {
    pub p1_revision: u32,
    pub ram: String,
    pub revision: String,
    pub type_: String,
    pub manufacturer: String,
    pub processor: String,
}

/// One pin of the 40-pin header.
#[derive(Debug, Clone)]
pub struct GpioPin {
    pub linux_gpio: u32,
    pub gpio_name: String,
    pub gpio_chip: String,
    pub board_pin: u32,
    pub bcm_pin: u32,
    pub cvm_pin: String,
    pub tegra_soc_pin: String,
    pub pwm_chip_sysfs_dir: Option<String>,
    pub pwm_id: Option<u32>,
    pub padctl_addr: Option<u32>,
}

/// The abstract value of a [`GpioPin`]: its strings taken as character sequences.
pub struct GpioPinView {
    pub linux_gpio: u32,
    pub gpio_name: Seq<char>,
    pub gpio_chip: Seq<char>,
    pub board_pin: u32,
    pub bcm_pin: u32,
    pub cvm_pin: Seq<char>,
    pub tegra_soc_pin: Seq<char>,
    pub pwm_chip_sysfs_dir: Option<Seq<char>>,
    pub pwm_id: Option<u32>,
    pub padctl_addr: Option<u32>,
}

/// The view of an optional string.
pub open spec fn opt_str_view(o: Option<String>) -> Option<Seq<char>> {
    match o {
        Some(s) => Some(s@),
        None => None,
    }
}

/// The view of an optional string slice.
pub open spec fn opt_slice_view(o: Option<&str>) -> Option<Seq<char>> {
    match o {
        Some(s) => Some(s@),
        None => None,
    }
}

impl View for GpioPin {
    type V = GpioPinView;

    open spec fn view(&self) -> GpioPinView {
        GpioPinView {
            linux_gpio: self.linux_gpio,
            gpio_name: self.gpio_name@,
            gpio_chip: self.gpio_chip@,
            board_pin: self.board_pin,
            bcm_pin: self.bcm_pin,
            cvm_pin: self.cvm_pin@,
            tegra_soc_pin: self.tegra_soc_pin@,
            pwm_chip_sysfs_dir: opt_str_view(self.pwm_chip_sysfs_dir),
            pwm_id: self.pwm_id,
            padctl_addr: self.padctl_addr,
        }
    }
}

/// Copies an optional string slice into an owned optional string.
fn opt_to_string(o: Option<&str>) -> (r: Option<String>)
    ensures
        opt_str_view(r) == opt_slice_view(o),
{
    match o {
        Some(s) => Some(s.to_string()),
        None => None,
    }
}

/// Duplicates an optional string.
pub fn clone_opt_string(o: &Option<String>) -> (r: Option<String>)
    ensures
        r == *o,
{
    match o {
        Some(s) => Some(s.clone()),
        None => None,
    }
}

impl GpioPin {
    /// Builds a pin description from its parts.
    pub fn new(
        linux_gpio: u32,
        gpio_name: &str,
        gpio_chip: &str,
        board_pin: u32,
        bcm_pin: u32,
        cvm_pin: &str,
        tegra_soc_pin: &str,
        pwm_chip_sysfs_dir: Option<&str>,
        pwm_id: Option<u32>,
        padctl_addr: Option<u32>,
    ) -> (r: Self)
        ensures
            r@ == (GpioPinView {
                linux_gpio,
                gpio_name: gpio_name@,
                gpio_chip: gpio_chip@,
                board_pin,
                bcm_pin,
                cvm_pin: cvm_pin@,
                tegra_soc_pin: tegra_soc_pin@,
                pwm_chip_sysfs_dir: opt_slice_view(pwm_chip_sysfs_dir),
                pwm_id,
                padctl_addr,
            }),
    {
        GpioPin {
            linux_gpio,
            gpio_name: gpio_name.to_string(),
            gpio_chip: gpio_chip.to_string(),
            board_pin,
            bcm_pin,
            cvm_pin: cvm_pin.to_string(),
            tegra_soc_pin: tegra_soc_pin.to_string(),
            pwm_chip_sysfs_dir: opt_to_string(pwm_chip_sysfs_dir),
            pwm_id,
            padctl_addr,
        }
    }
}

/// Lookup information about one channel, as kept by the GPIO state.
#[derive(Debug, Clone)]
pub struct ChannelInfo {
    pub channel: u32,
    pub chip_fd: Option<i32>,
    pub line_handle: Option<i32>,
    pub line_offset: u32,
    pub direction: Option<Direction>,
    pub edge: Option<String>,
    pub consumer: String,
    pub gpio_name: String,
    pub gpio_chip: String,
    pub pwm_chip_dir: Option<String>,
    pub pwm_id: Option<u32>,
    pub reg_addr: Option<u32>,
}

/// The abstract value of a [`ChannelInfo`].
pub struct ChannelInfoView {
    pub channel: u32,
    pub chip_fd: Option<i32>,
    pub line_handle: Option<i32>,
    pub line_offset: u32,
    pub direction: Option<Direction>,
    pub edge: Option<Seq<char>>,
    pub consumer: Seq<char>,
    pub gpio_name: Seq<char>,
    pub gpio_chip: Seq<char>,
    pub pwm_chip_dir: Option<Seq<char>>,
    pub pwm_id: Option<u32>,
    pub reg_addr: Option<u32>,
}

impl View for ChannelInfo {
    type V = ChannelInfoView;

    open spec fn view(&self) -> ChannelInfoView {
        ChannelInfoView {
            channel: self.channel,
            chip_fd: self.chip_fd,
            line_handle: self.line_handle,
            line_offset: self.line_offset,
            direction: self.direction,
            edge: opt_str_view(self.edge),
            consumer: self.consumer@,
            gpio_name: self.gpio_name@,
            gpio_chip: self.gpio_chip@,
            pwm_chip_dir: opt_str_view(self.pwm_chip_dir),
            pwm_id: self.pwm_id,
            reg_addr: self.reg_addr,
        }
    }
}

impl ChannelInfo {
    /// Returns a copy equal to `self`.
    pub fn duplicate(&self) -> (r: ChannelInfo)
        ensures
            r == *self,
    {
        ChannelInfo {
            channel: self.channel,
            chip_fd: self.chip_fd,
            line_handle: self.line_handle,
            line_offset: self.line_offset,
            direction: self.direction,
            edge: clone_opt_string(&self.edge),
            consumer: self.consumer.clone(),
            gpio_name: self.gpio_name.clone(),
            gpio_chip: self.gpio_chip.clone(),
            pwm_chip_dir: clone_opt_string(&self.pwm_chip_dir),
            pwm_id: self.pwm_id,
            reg_addr: self.reg_addr,
        }
    }
}

/// The hash of a string as computed by `std`'s `DefaultHasher`: the string's
/// UTF-8 bytes followed by the terminator byte `0xff` that `str` feeds to a hasher.
pub open spec fn string_hash(s: Seq<char>) -> u64 {
    DefaultHasher::spec_finish(seq![encode_utf8(s), seq![0xffu8]])
}

/// Hashes a string with a freshly created `DefaultHasher`.
pub fn hash_string(s: &str) -> (r: u64)
    ensures
        r == string_hash(s@),
{
    let mut hasher = DefaultHasher::new();
    hasher.write(s.as_bytes());
    let terminator: [u8; 1] = [0xffu8];
    hasher.write(terminator.as_slice());
    proof {
        assert(terminator@ =~= seq![0xffu8]);
        assert(hasher@ =~= seq![encode_utf8(s@), seq![0xffu8]]);
    }
    hasher.finish()
}

/// The views of a list of pins.
pub open spec fn pins_view(pins: Seq<GpioPin>) -> Seq<GpioPinView> {
    pins.map_values(|p: GpioPin| p@)
}

/// The key under which a pin is found in the table of a numbering mode.
pub open spec fn pin_key(p: GpioPinView, mode: Mode) -> u32 {
    match mode {
        Mode::BOARD => p.board_pin,
        Mode::BCM => p.bcm_pin,
        Mode::CVM => string_hash(p.cvm_pin) as u32,
        Mode::TegraSoc => string_hash(p.tegra_soc_pin) as u32,
    }
}

/// The fresh channel description of a pin, filed under `key`.
pub open spec fn pin_channel_info(p: GpioPinView, key: u32) -> ChannelInfoView {
    ChannelInfoView {
        channel: key,
        chip_fd: None,
        line_handle: None,
        line_offset: p.linux_gpio,
        direction: None,
        edge: None,
        consumer: "Jetson-gpio"@,
        gpio_name: p.gpio_name,
        gpio_chip: p.gpio_chip,
        pwm_chip_dir: p.pwm_chip_sysfs_dir,
        pwm_id: p.pwm_id,
        reg_addr: p.padctl_addr,
    }
}

/// The channel table of a numbering mode: each pin is filed under its key,
/// and a later pin replaces an earlier one with the same key.
pub open spec fn mode_table(pins: Seq<GpioPinView>, mode: Mode) -> Map<u32, ChannelInfoView>
    decreases pins.len(),
{
    if pins.len() == 0 {
        Map::empty()
    } else {
        let p = pins.last();
        mode_table(pins.drop_last(), mode).insert(pin_key(p, mode), pin_channel_info(p, pin_key(p, mode)))
    }
}

/// The views of the entries of a channel table.
pub open spec fn table_view(m: Map<u32, ChannelInfo>) -> Map<u32, ChannelInfoView> {
    m.map_values(|c: ChannelInfo| c@)
}

/// The four channel tables, one per numbering mode.
pub struct ChannelTables {
    pub board: HashMap<u32, ChannelInfo>,
    pub bcm: HashMap<u32, ChannelInfo>,
    pub tegra_soc: HashMap<u32, ChannelInfo>,
    pub cvm: HashMap<u32, ChannelInfo>,
}

impl ChannelTables {
    /// The table of a numbering mode.
    pub open spec fn spec_table(self, mode: Mode) -> Map<u32, ChannelInfo> {
        match mode {
            Mode::BOARD => self.board@,
            Mode::BCM => self.bcm@,
            Mode::TegraSoc => self.tegra_soc@,
            Mode::CVM => self.cvm@,
        }
    }

    /// Every entry of every table is filed under its own channel number.
    pub open spec fn wf(self) -> bool {
        forall|mode: Mode, k: u32| #[trigger] self.spec_table(mode).contains_key(k)
            ==> self.spec_table(mode)[k].channel == k
    }

    /// Returns the table of a numbering mode.
    pub fn table(&self, mode: Mode) -> (r: &HashMap<u32, ChannelInfo>)
        ensures
            r@ == self.spec_table(mode),
    {
        match mode {
            Mode::BOARD => &self.board,
            Mode::BCM => &self.bcm,
            Mode::TegraSoc => &self.tegra_soc,
            Mode::CVM => &self.cvm,
        }
    }
}

/// Every entry of a table built by [`mode_table`] is filed under its channel.
pub proof fn lemma_mode_table_channels(pins: Seq<GpioPinView>, mode: Mode)
    ensures
        forall|k: u32| #[trigger] mode_table(pins, mode).contains_key(k)
            ==> mode_table(pins, mode)[k].channel == k,
    decreases pins.len(),
{
    if pins.len() > 0 {
        lemma_mode_table_channels(pins.drop_last(), mode);
    }
}

/// Builds the channel table of one numbering mode.
fn build_table(pin_defs: &Vec<GpioPin>, mode: Mode) -> (t: HashMap<u32, ChannelInfo>)
    ensures
        table_view(t@) == mode_table(pins_view(pin_defs@), mode),
{
    let ghost pins = pins_view(pin_defs@);
    let mut t: HashMap<u32, ChannelInfo> = HashMap::new();
    let n = pin_defs.len();
    let mut i: usize = 0;
    while i < n
        invariant
            n == pin_defs.len(),
            i <= n,
            pins == pins_view(pin_defs@),
            table_view(t@) == mode_table(pins.take(i as int), mode),
        decreases n - i,
    {
        let pin = &pin_defs[i];
        let key: u32 = match mode {
            Mode::BOARD => pin.board_pin,
            Mode::BCM => pin.bcm_pin,
            Mode::CVM => hash_string(pin.cvm_pin.as_str()) as u32,
            Mode::TegraSoc => hash_string(pin.tegra_soc_pin.as_str()) as u32,
        };
        let info = ChannelInfo {
            channel: key,
            chip_fd: None,
            line_handle: None,
            line_offset: pin.linux_gpio,
            direction: None,
            edge: None,
            consumer: "Jetson-gpio".to_string(),
            gpio_name: pin.gpio_name.clone(),
            gpio_chip: pin.gpio_chip.clone(),
            pwm_chip_dir: clone_opt_string(&pin.pwm_chip_sysfs_dir),
            pwm_id: pin.pwm_id,
            reg_addr: pin.padctl_addr,
        };
        let ghost old_t = t@;
        t.insert(key, info);
        proof {
            assert(pins.take(i + 1).drop_last() =~= pins.take(i as int));
            assert(pins.take(i + 1).last() == pin@);
            assert(key == pin_key(pin@, mode));
            assert(info@ == pin_channel_info(pin@, key));
            assert(table_view(t@) =~= table_view(old_t).insert(key, info@));
        }
        i = i + 1;
    }
    proof {
        assert(pins.take(n as int) =~= pins);
    }
    t
}

/// Builds the four channel tables of a board from its pin definitions and
/// returns them with the model name and the board information.
pub fn get_data(model: String, jetson_info: JetsonInfo, pin_defs: &Vec<GpioPin>) -> (r: (
    String,
    JetsonInfo,
    ChannelTables,
))
    ensures
        r.0 == model,
        r.1 == jetson_info,
        r.2.wf(),
        forall|mode: Mode|
            table_view(#[trigger] r.2.spec_table(mode)) == mode_table(pins_view(pin_defs@), mode),
{
    let board = build_table(pin_defs, Mode::BOARD);
    let bcm = build_table(pin_defs, Mode::BCM);
    let cvm = build_table(pin_defs, Mode::CVM);
    let tegra_soc = build_table(pin_defs, Mode::TegraSoc);
    let tables = ChannelTables { board, bcm, tegra_soc, cvm };
    proof {
        assert forall|mode: Mode, k: u32| #[trigger] tables.spec_table(mode).contains_key(k)
            implies tables.spec_table(mode)[k].channel == k by {
            lemma_mode_table_channels(pins_view(pin_defs@), mode);
            assert(table_view(tables.spec_table(mode)).contains_key(k));
            assert(table_view(tables.spec_table(mode))[k] == tables.spec_table(mode)[k]@);
        }
        assert forall|mode: Mode|
            table_view(#[trigger] tables.spec_table(mode)) == mode_table(pins_view(pin_defs@), mode) by {
            match mode {
                Mode::BOARD => {},
                Mode::BCM => {},
                Mode::CVM => {},
                Mode::TegraSoc => {},
            }
        }
    }
    (model, jetson_info, tables)
}

/// `needle` occurs in `hay` as a contiguous run of characters.
pub open spec fn is_substring(needle: Seq<char>, hay: Seq<char>) -> bool {
    exists|i: int| 0 <= i && i + needle.len() <= hay.len() && #[trigger] hay.subrange(i, i + needle.len()) == needle
}

/// Tells whether `needle` occurs in `hay`.
pub fn str_contains(hay: &str, needle: &str) -> (r: bool)
    ensures
        r == is_substring(needle@, hay@),
{
    let h = hay.unicode_len();
    let n = needle.unicode_len();
    if n > h {
        return false;
    }
    let mut i: usize = 0;
    while i <= h - n
        invariant
            h == hay@.len(),
            n == needle@.len(),
            n <= h,
            i <= h - n,
            forall|k: int| 0 <= k < i ==> #[trigger] hay@.subrange(k, k + n) != needle@,
        ensures
            forall|k: int| 0 <= k <= h - n ==> #[trigger] hay@.subrange(k, k + n) != needle@,
        decreases h - n - i,
    {
        let mut j: usize = 0;
        let mut same = true;
        while j < n && same
            invariant
                h == hay@.len(),
                n == needle@.len(),
                i + n <= h,
                j <= n,
                same ==> forall|k: int| 0 <= k < j ==> hay@[i + k] == needle@[k],
                !same ==> hay@.subrange(i as int, i + n) != needle@,
            decreases n - j,
        {
            if hay.get_char(i + j) != needle.get_char(j) {
                same = false;
                proof {
                    assert(hay@.subrange(i as int, i + n)[j as int] == hay@[i + j]);
                }
            }
            j = j + 1;
        }
        if same {
            proof {
                assert(hay@.subrange(i as int, i + n) =~= needle@);
            }
            return true;
        }
        if i == h - n {
            break;
        }
        i = i + 1;
    }
    proof {
        assert forall|k: int| 0 <= k && k + needle@.len() <= hay@.len()
            implies #[trigger] hay@.subrange(k, k + needle@.len()) != needle@ by {
            assert(k <= h - n);
        }
    }
    false
}

/// Some pattern occurs in some compatible string.
pub open spec fn any_match(compatibles: Seq<String>, patterns: Seq<&str>) -> bool {
    exists|p: int, c: int|
        0 <= p < patterns.len() && 0 <= c < compatibles.len()
            && #[trigger] is_substring(patterns[p]@, compatibles[c]@)
}

/// Tells whether any of the `patterns` occurs in any of the `compatibles`.
pub fn matches_any(compatibles: &[String], patterns: &[&str]) -> (r: bool)
    ensures
        r == any_match(compatibles@, patterns@),
{
    let mut p: usize = 0;
    while p < patterns.len()
        invariant
            p <= patterns@.len(),
            forall|pi: int, ci: int|
                0 <= pi < p && 0 <= ci < compatibles@.len()
                    ==> !#[trigger] is_substring(patterns@[pi]@, compatibles@[ci]@),
        decreases patterns@.len() - p,
    {
        let mut c: usize = 0;
        while c < compatibles.len()
            invariant
                p < patterns@.len(),
                c <= compatibles@.len(),
                forall|pi: int, ci: int|
                    0 <= pi < p && 0 <= ci < compatibles@.len()
                        ==> !#[trigger] is_substring(patterns@[pi]@, compatibles@[ci]@),
                forall|ci: int| 0 <= ci < c ==> !#[trigger] is_substring(patterns@[p as int]@, compatibles@[ci]@),
            decreases compatibles@.len() - c,
        {
            if str_contains(compatibles[c].as_str(), patterns[p]) {
                return true;
            }
            c = c + 1;
        }
        p = p + 1;
    }
    false
}

/// The pieces of a byte buffer between zero bytes, empty pieces included.
pub open spec fn zero_split(buf: Seq<u8>) -> Seq<Seq<u8>>
    decreases buf.len(),
{
    if buf.len() == 0 {
        seq![Seq::<u8>::empty()]
    } else {
        let s = zero_split(buf.drop_last());
        if buf.last() == 0 {
            s.push(Seq::<u8>::empty())
        } else {
            s.update(s.len() - 1, s.last().push(buf.last()))
        }
    }
}

/// The strings decoded from the non-empty pieces that are valid UTF-8, in order.
pub open spec fn compat_strings(pieces: Seq<Seq<u8>>) -> Seq<Seq<char>>
    decreases pieces.len(),
{
    if pieces.len() == 0 {
        Seq::empty()
    } else {
        let r = compat_strings(pieces.drop_last());
        let x = pieces.last();
        if x.len() > 0 && valid_utf8(x) {
            r.push(decode_utf8(x))
        } else {
            r
        }
    }
}

/// Decodes bytes as UTF-8 with `String::from_utf8`.
///
/// The contract claims what `std` documents: the conversion succeeds exactly
/// on valid UTF-8, and the string holds the characters the bytes encode.
#[verifier::external_body]
fn utf8_to_string(bytes: Vec<u8>) -> (r: Option<String>)
    ensures
        r is Some <==> valid_utf8(bytes@),
        r matches Some(s) ==> s@ == decode_utf8(bytes@),
{
    String::from_utf8(bytes).ok()
}

/// Keeps a piece as a compatible string when it is non-empty valid UTF-8.
fn keep_piece(out: &mut Vec<String>, piece: Vec<u8>)
    ensures
        final(out)@.map_values(|s: String| s@) == (if piece@.len() > 0 && valid_utf8(piece@) {
            old(out)@.map_values(|s: String| s@).push(decode_utf8(piece@))
        } else {
            old(out)@.map_values(|s: String| s@)
        }),
{
    if piece.len() > 0 {
        let ghost p = piece@;
        match utf8_to_string(piece) {
            Some(s) => {
                out.push(s);
                proof {
                    assert(out@.map_values(|s: String| s@) =~= old(out)@.map_values(|s: String| s@).push(decode_utf8(p)));
                }
            },
            None => {},
        }
    }
}

/// Splits the contents of the device tree `compatible` file into its strings:
/// the non-empty pieces between zero bytes that are valid UTF-8. A file that
/// holds no such string is refused.
pub fn parse_compatibles(buffer: &Vec<u8>) -> (r: Result<Vec<String>, Error>)
    ensures
        compat_strings(zero_split(buffer@)).len() == 0 ==> r == Err::<Vec<String>, Error>(Error::NoCompatibleStrings),
        compat_strings(zero_split(buffer@)).len() > 0 ==> (r matches Ok(v) && v@.map_values(|s: String| s@)
            == compat_strings(zero_split(buffer@))),
{
    let mut out: Vec<String> = Vec::new();
    let mut current: Vec<u8> = Vec::new();
    let n = buffer.len();
    let mut i: usize = 0;
    while i < n
        invariant
            n == buffer@.len(),
            i <= n,
            zero_split(buffer@.take(i as int)).len() >= 1,
            current@ == zero_split(buffer@.take(i as int)).last(),
            out@.map_values(|s: String| s@) == compat_strings(zero_split(buffer@.take(i as int)).drop_last()),
        decreases n - i,
    {
        let b = buffer[i];
        let ghost z = zero_split(buffer@.take(i as int));
        proof {
            assert(buffer@.take(i + 1).drop_last() =~= buffer@.take(i as int));
            assert(buffer@.take(i + 1).last() == b);
        }
        if b == 0 {
            let mut piece: Vec<u8> = Vec::new();
            std::mem::swap(&mut piece, &mut current);
            keep_piece(&mut out, piece);
            proof {
                let z1 = zero_split(buffer@.take(i + 1));
                assert(z1 == z.push(Seq::<u8>::empty()));
                assert(z1.drop_last() =~= z);
                assert(z.drop_last().push(z.last()) =~= z);
            }
        } else {
            current.push(b);
            proof {
                let z1 = zero_split(buffer@.take(i + 1));
                assert(z1.drop_last() =~= z.drop_last());
            }
        }
        i = i + 1;
    }
    keep_piece(&mut out, current);
    proof {
        let z = zero_split(buffer@.take(n as int));
        assert(buffer@.take(n as int) =~= buffer@);
        assert(z.drop_last().push(z.last()) =~= z);
    }
    if out.len() == 0 {
        return Err(Error::NoCompatibleStrings);
    }
    Ok(out)
}

/// The index of the first entry of `table` with a pattern found in a compatible string.
pub open spec fn first_matching(compatibles: Seq<String>, table: Seq<Vec<&str>>) -> Option<int>
    decreases table.len(),
{
    if table.len() == 0 {
        None
    } else if any_match(compatibles, table[0]@) {
        Some(0)
    } else {
        match first_matching(compatibles, table.drop_first()) {
            Some(i) => Some(i + 1),
            None => None,
        }
    }
}

/// Finds the first model of `table`, given as the compatible patterns of each
/// model in detection order, whose patterns occur in the compatible strings.
pub fn match_model(compatibles: &[String], table: &[Vec<&str>]) -> (r: Option<usize>)
    ensures
        r matches Some(i) ==> (first_matching(compatibles@, table@) == Some(i as int)),
        r is None ==> first_matching(compatibles@, table@) is None,
{
    let n = table.len();
    let mut i: usize = 0;
    proof {
        assert(table@.skip(0) =~= table@);
    }
    while i < n
        invariant
            n == table@.len(),
            i <= n,
            first_matching(compatibles@, table@) == match first_matching(compatibles@, table@.skip(i as int)) {
                Some(k) => Some(k + i),
                None => None::<int>,
            },
        decreases n - i,
    {
        proof {
            assert(table@.skip(i as int).drop_first() =~= table@.skip(i + 1));
            assert(table@.skip(i as int)[0] == table@[i as int]);
        }
        if matches_any(compatibles, table[i].as_slice()) {
            return Some(i);
        }
        i = i + 1;
    }
    proof {
        assert(table@.skip(n as int).len() == 0);
    }
    None
}

/// Whether `a` comes before `b` in lexicographic order of characters.
pub open spec fn lex_less(a: Seq<char>, b: Seq<char>) -> bool
    decreases a.len(),
{
    if b.len() == 0 {
        false
    } else if a.len() == 0 {
        true
    } else if a[0] != b[0] {
        (a[0] as u32) < (b[0] as u32)
    } else {
        lex_less(a.drop_first(), b.drop_first())
    }
}

/// The part of a module id after its last `-`; the whole id when it has none.
pub open spec fn revision_of(id: Seq<char>) -> Seq<char> {
    if exists|i: int| 0 <= i < id.len() && id[i] == '-' {
        let last = choose|i: int| 0 <= i < id.len() && id[i] == '-' && forall|j: int| i < j < id.len() ==> id[j] != '-';
        id.subrange(last + 1, id.len() as int)
    } else {
        id
    }
}

/// Compares two strings character by character.
fn str_lex_less(a: &str, b: &str) -> (r: bool)
    ensures
        r == lex_less(a@, b@),
{
    let la = a.unicode_len();
    let lb = b.unicode_len();
    let mut i: usize = 0;
    proof {
        assert(a@.skip(0) =~= a@);
        assert(b@.skip(0) =~= b@);
    }
    while i < la && i < lb
        invariant
            la == a@.len(),
            lb == b@.len(),
            i <= la,
            i <= lb,
            forall|k: int| 0 <= k < i ==> a@[k] == b@[k],
            lex_less(a@, b@) == lex_less(a@.skip(i as int), b@.skip(i as int)),
        decreases la - i,
    {
        let ca = a.get_char(i);
        let cb = b.get_char(i);
        proof {
            assert(a@.skip(i as int)[0] == ca);
            assert(b@.skip(i as int)[0] == cb);
            assert(a@.skip(i as int).drop_first() =~= a@.skip(i + 1));
            assert(b@.skip(i as int).drop_first() =~= b@.skip(i + 1));
        }
        if ca != cb {
            return (ca as u32) < (cb as u32);
        }
        i = i + 1;
    }
    proof {
        assert(a@.skip(i as int).len() == la - i);
        assert(b@.skip(i as int).len() == lb - i);
    }
    i < lb
}

/// A Jetson Nano module must be of revision A02 or later: the revision part
/// of its id must not come before `200`.
pub fn nano_revision_ok(module_id: &str) -> (r: bool)
    ensures
        r == !lex_less(revision_of(module_id@), "200"@),
{
    let len = module_id.unicode_len();
    let mut start: usize = 0;
    let mut i: usize = 0;
    let ghost mut found: Option<int> = None;
    while i < len
        invariant
            len == module_id@.len(),
            i <= len,
            start <= i,
            found matches Some(p) ==> (0 <= p < i && module_id@[p] == '-' && start == p + 1
                && forall|j: int| p < j < i ==> module_id@[j] != '-'),
            found is None ==> start == 0 && forall|j: int| 0 <= j < i ==> module_id@[j] != '-',
        decreases len - i,
    {
        if module_id.get_char(i) == '-' {
            start = i + 1;
            proof {
                found = Some(i as int);
            }
        }
        i = i + 1;
    }
    let revision = module_id.substring_char(start, len);
    proof {
        match found {
            Some(p) => {
                let last = choose|k: int| 0 <= k < module_id@.len() && module_id@[k] == '-' && forall|j: int|
                    k < j < module_id@.len() ==> module_id@[j] != '-';
                if last < p {
                    assert(module_id@[p] != '-');
                } else if last > p {
                    assert(module_id@[last] != '-');
                }
                assert(revision@ == revision_of(module_id@));
            },
            None => {
                assert(module_id@.subrange(0, len as int) =~= module_id@);
            },
        }
    }
    !str_lex_less(revision, "200")
}

/// The characters of the Unicode `White_Space` property, which `str::trim` removes.
pub open spec fn is_white_space(c: char) -> bool {
    let u = c as u32;
    ||| 0x09 <= u <= 0x0d
    ||| u == 0x20
    ||| u == 0x85
    ||| u == 0xa0
    ||| u == 0x1680
    ||| 0x2000 <= u <= 0x200a
    ||| u == 0x2028
    ||| u == 0x2029
    ||| u == 0x202f
    ||| u == 0x205f
    ||| u == 0x3000
}

/// The characters of `s` from its first one that is not white space.
pub open spec fn trim_start(s: Seq<char>) -> Seq<char>
    decreases s.len(),
{
    if s.len() > 0 && is_white_space(s[0]) {
        trim_start(s.drop_first())
    } else {
        s
    }
}

/// The characters of `s` up to its last one that is not white space.
pub open spec fn trim_end(s: Seq<char>) -> Seq<char>
    decreases s.len(),
{
    if s.len() > 0 && is_white_space(s.last()) {
        trim_end(s.drop_last())
    } else {
        s
    }
}

/// A string without its leading and trailing white space.
pub open spec fn trimmed(s: Seq<char>) -> Seq<char> {
    trim_end(trim_start(s))
}

/// Tells whether a character is white space.
fn char_is_white_space(c: char) -> (r: bool)
    ensures
        r == is_white_space(c),
{
    let u = c as u32;
    (0x09 <= u && u <= 0x0d) || u == 0x20 || u == 0x85 || u == 0xa0 || u == 0x1680 || (0x2000 <= u
        && u <= 0x200a) || u == 0x2028 || u == 0x2029 || u == 0x202f || u == 0x205f || u == 0x3000
}

/// Returns `s` without its leading and trailing white space.
pub fn trim_white_space(s: &str) -> (r: String)
    ensures
        r@ == trimmed(s@),
{
    let len = s.unicode_len();
    let mut start: usize = 0;
    proof {
        assert(s@.skip(0) =~= s@);
    }
    while start < len && char_is_white_space(s.get_char(start))
        invariant
            len == s@.len(),
            start <= len,
            trim_start(s@) == trim_start(s@.skip(start as int)),
        decreases len - start,
    {
        proof {
            assert(s@.skip(start as int)[0] == s@[start as int]);
            assert(s@.skip(start as int).drop_first() =~= s@.skip(start + 1));
        }
        start = start + 1;
    }
    proof {
        if start < len {
            assert(s@.skip(start as int)[0] == s@[start as int]);
        }
        assert(trim_start(s@) == s@.skip(start as int));
    }
    let mut end: usize = len;
    proof {
        assert(s@.subrange(start as int, end as int) =~= s@.skip(start as int));
    }
    while end > start && char_is_white_space(s.get_char(end - 1))
        invariant
            len == s@.len(),
            start <= end <= len,
            trimmed(s@) == trim_end(s@.subrange(start as int, end as int)),
        decreases end - start,
    {
        proof {
            assert(s@.subrange(start as int, end as int).last() == s@[end - 1]);
            assert(s@.subrange(start as int, end as int).drop_last() =~= s@.subrange(start as int, end - 1));
        }
        end = end - 1;
    }
    proof {
        if end > start {
            assert(s@.subrange(start as int, end as int).last() == s@[end - 1]);
        }
    }
    s.substring_char(start, end).to_string()
}

/// The pieces of `s` between white-space characters, empty pieces included.
pub open spec fn white_split(s: Seq<char>) -> Seq<Seq<char>>
    decreases s.len(),
{
    if s.len() == 0 {
        seq![Seq::<char>::empty()]
    } else {
        let p = white_split(s.drop_last());
        if is_white_space(s.last()) {
            p.push(Seq::<char>::empty())
        } else {
            p.update(p.len() - 1, p.last().push(s.last()))
        }
    }
}

/// The non-empty pieces, in order.
pub open spec fn non_empty_pieces(pieces: Seq<Seq<char>>) -> Seq<Seq<char>>
    decreases pieces.len(),
{
    if pieces.len() == 0 {
        Seq::empty()
    } else {
        let r = non_empty_pieces(pieces.drop_last());
        if pieces.last().len() > 0 {
            r.push(pieces.last())
        } else {
            r
        }
    }
}

/// The words of `s`: its non-empty runs of characters that are not white space.
pub open spec fn words(s: Seq<char>) -> Seq<Seq<char>> {
    non_empty_pieces(white_split(s))
}

/// Splits a string into its words, as the board ids file lists them.
pub fn split_white_space(s: &str) -> (r: Vec<String>)
    ensures
        r@.map_values(|w: String| w@) == words(s@),
{
    let n = s.unicode_len();
    let mut out: Vec<String> = Vec::new();
    let mut start: usize = 0;
    let mut i: usize = 0;
    while i < n
        invariant
            n == s@.len(),
            start <= i <= n,
            white_split(s@.take(i as int)).len() >= 1,
            white_split(s@.take(i as int)).last() == s@.subrange(start as int, i as int),
            out@.map_values(|w: String| w@) == non_empty_pieces(white_split(s@.take(i as int)).drop_last()),
        decreases n - i,
    {
        let c = s.get_char(i);
        let ghost z = white_split(s@.take(i as int));
        proof {
            assert(s@.take(i + 1).drop_last() =~= s@.take(i as int));
            assert(s@.take(i + 1).last() == c);
        }
        if char_is_white_space(c) {
            if i > start {
                let w = s.substring_char(start, i).to_string();
                out.push(w);
                proof {
                    assert(out@.map_values(|w: String| w@) =~= non_empty_pieces(z.drop_last()).push(z.last()));
                }
            }
            start = i + 1;
            proof {
                let z1 = white_split(s@.take(i + 1));
                assert(z1 == z.push(Seq::<char>::empty()));
                assert(z1.drop_last() =~= z);
                assert(z.drop_last().push(z.last()) =~= z);
                assert(s@.subrange(start as int, i + 1) =~= Seq::<char>::empty());
            }
        } else {
            proof {
                let z1 = white_split(s@.take(i + 1));
                assert(z1.drop_last() =~= z.drop_last());
                assert(z1.last() == z.last().push(c));
                assert(s@.subrange(start as int, i + 1) =~= s@.subrange(start as int, i as int).push(c));
            }
        }
        i = i + 1;
    }
    proof {
        let z = white_split(s@.take(n as int));
        assert(s@.take(n as int) =~= s@);
        assert(z.drop_last().push(z.last()) =~= z);
    }
    if n > start {
        let w = s.substring_char(start, n).to_string();
        out.push(w);
        proof {
            let z = white_split(s@);
            assert(out@.map_values(|w: String| w@) =~= non_empty_pieces(z.drop_last()).push(z.last()));
        }
    }
    out
}

/// Reads a model name given in the environment: the trimmed value when it is
/// one of `models`, none otherwise.
pub fn model_from_env(value: &str, models: &[&str]) -> (r: Option<String>)
    ensures
        (exists|i: int| 0 <= i < models@.len() && (#[trigger] models@[i])@ == trimmed(value@)) ==> (r matches Some(
            m,
        ) && m@ == trimmed(value@)),
        !(exists|i: int| 0 <= i < models@.len() && (#[trigger] models@[i])@ == trimmed(value@)) ==> r is None,
{
    let name = trim_white_space(value);
    let n = models.len();
    let mut i: usize = 0;
    while i < n
        invariant
            n == models@.len(),
            i <= n,
            name@ == trimmed(value@),
            forall|k: int| 0 <= k < i ==> (#[trigger] models@[k])@ != trimmed(value@),
        decreases n - i,
    {
        let candidate = models[i].to_string();
        if candidate == name {
            return Some(name);
        }
        i = i + 1;
    }
    None
}

/// `prefix` begins `s`.
pub open spec fn has_prefix(s: Seq<char>, prefix: Seq<char>) -> bool {
    prefix.len() <= s.len() && s.subrange(0, prefix.len() as int) == prefix
}

/// Tells whether `s` begins with `prefix`.
pub fn str_starts_with(s: &str, prefix: &str) -> (r: bool)
    ensures
        r == has_prefix(s@, prefix@),
{
    let ls = s.unicode_len();
    let lp = prefix.unicode_len();
    if lp > ls {
        return false;
    }
    let mut i: usize = 0;
    while i < lp
        invariant
            ls == s@.len(),
            lp == prefix@.len(),
            lp <= ls,
            i <= lp,
            forall|k: int| 0 <= k < i ==> s@[k] == prefix@[k],
        decreases lp - i,
    {
        if s.get_char(i) != prefix.get_char(i) {
            proof {
                assert(s@.subrange(0, lp as int)[i as int] != prefix@[i as int]);
            }
            return false;
        }
        i = i + 1;
    }
    proof {
        assert(s@.subrange(0, lp as int) =~= prefix@);
    }
    true
}

/// The index of the first name that begins with `prefix`: how a board id is
/// found among the plugin-manager ids.
pub fn first_with_prefix(names: &[String], prefix: &str) -> (r: Option<usize>)
    ensures
        r matches Some(i) ==> (i < names@.len() && has_prefix(names@[i as int]@, prefix@) && forall|j: int|
            0 <= j < i ==> !has_prefix(#[trigger] names@[j]@, prefix@)),
        r is None ==> forall|j: int| 0 <= j < names@.len() ==> !has_prefix(#[trigger] names@[j]@, prefix@),
{
    let n = names.len();
    let mut i: usize = 0;
    while i < n
        invariant
            n == names@.len(),
            i <= n,
            forall|j: int| 0 <= j < i ==> !has_prefix(#[trigger] names@[j]@, prefix@),
        decreases n - i,
    {
        if str_starts_with(names[i].as_str(), prefix) {
            return Some(i);
        }
        i = i + 1;
    }
    None
}

/// The index of the first model whose name is `name`.
pub open spec fn first_named(models: Seq<&str>, name: Seq<char>) -> Option<int>
    decreases models.len(),
{
    if models.len() == 0 {
        None
    } else if models[0]@ == name {
        Some(0)
    } else {
        match first_named(models.drop_first(), name) {
            Some(i) => Some(i + 1),
            None => None,
        }
    }
}

/// The model named by the value of an environment variable: the first model
/// whose name is the trimmed value.
pub open spec fn env_model(value: Option<Seq<char>>, models: Seq<&str>) -> Option<int> {
    match value {
        Some(v) => first_named(models, trimmed(v)),
        None => None,
    }
}

/// Finds the model named by the trimmed `value`.
pub fn find_model(value: &str, models: &[&str]) -> (r: Option<usize>)
    ensures
        r matches Some(i) ==> first_named(models@, trimmed(value@)) == Some(i as int),
        r is None ==> first_named(models@, trimmed(value@)) is None,
{
    let name = trim_white_space(value);
    let n = models.len();
    let mut i: usize = 0;
    proof {
        assert(models@.skip(0) =~= models@);
    }
    while i < n
        invariant
            n == models@.len(),
            i <= n,
            name@ == trimmed(value@),
            first_named(models@, name@) == match first_named(models@.skip(i as int), name@) {
                Some(k) => Some(k + i),
                None => None::<int>,
            },
        decreases n - i,
    {
        proof {
            assert(models@.skip(i as int).drop_first() =~= models@.skip(i + 1));
            assert(models@.skip(i as int)[0] == models@[i as int]);
        }
        let candidate = models[i].to_string();
        if candidate == name {
            return Some(i);
        }
        i = i + 1;
    }
    proof {
        assert(models@.skip(n as int).len() == 0);
    }
    None
}

/// The outcome of one step of model detection.
#[derive(Debug, Clone, Copy, PartialEq, Eq, Structural)]
pub enum ModelChoice {
    /// An environment variable names the model (an index of the models).
    Named(usize),
    /// The device tree matches the model (an index of the models); its carrier
    /// board is then checked.
    Detected(usize),
    /// The compatible strings of the device tree are needed.
    NeedCompatibles,
    /// The board id of the Jetson Nano module is needed.
    NeedNanoModuleId,
    /// The Jetson Nano module is older than revision A02.
    NanoTooOld,
    /// No model could be determined.
    Undetermined,
}

/// One step of model detection, with the warnings it calls for.
#[derive(Debug, Clone, Copy, PartialEq, Eq, Structural)]
pub struct ModelSelection {
    pub choice: ModelChoice,
    /// `JETSON_TESTING_MODEL_NAME` is set but names no model.
    pub testing_invalid: bool,
    /// `JETSON_MODEL_NAME` was consulted, is set, and names no model.
    pub fallback_invalid: bool,
}

/// The model detected from the device tree, or the fallback variable when
/// the device tree matches no model.
pub open spec fn device_tree_choice(
    compatibles: Option<Seq<String>>,
    nano_module_id: Option<Seq<char>>,
    fallback: Option<Seq<char>>,
    models: Seq<&str>,
    table: Seq<Vec<&str>>,
) -> ModelSelection {
    let detected = match compatibles {
        Some(c) => first_matching(c, table),
        None => None,
    };
    match detected {
        Some(i) => {
            let choice = if 0 <= i < models.len() && models[i]@ == "JETSON_NANO"@ {
                match nano_module_id {
                    None => ModelChoice::NeedNanoModuleId,
                    Some(id) => if lex_less(revision_of(id), "200"@) {
                        ModelChoice::NanoTooOld
                    } else {
                        ModelChoice::Detected(i as usize)
                    },
                }
            } else {
                ModelChoice::Detected(i as usize)
            };
            ModelSelection { choice, testing_invalid: false, fallback_invalid: false }
        },
        None => match env_model(fallback, models) {
            Some(j) => ModelSelection {
                choice: ModelChoice::Named(j as usize),
                testing_invalid: false,
                fallback_invalid: false,
            },
            None => ModelSelection {
                choice: ModelChoice::Undetermined,
                testing_invalid: false,
                fallback_invalid: fallback is Some,
            },
        },
    }
}

/// Model detection: the testing variable first, then the device tree (a
/// Jetson Nano must be of revision A02 or later), then the fallback variable.
/// `device_tree` is none while the device tree is not read yet, and holds
/// none when it has no compatible file; `table` gives the compatible patterns
/// of each model, in the order of `models`.
pub open spec fn spec_select_model(
    testing: Option<Seq<char>>,
    device_tree: Option<Option<Seq<String>>>,
    nano_module_id: Option<Seq<char>>,
    fallback: Option<Seq<char>>,
    models: Seq<&str>,
    table: Seq<Vec<&str>>,
) -> ModelSelection {
    match env_model(testing, models) {
        Some(t) => ModelSelection { choice: ModelChoice::Named(t as usize), testing_invalid: false, fallback_invalid: false },
        None => {
            let step = match device_tree {
                None => ModelSelection {
                    choice: ModelChoice::NeedCompatibles,
                    testing_invalid: false,
                    fallback_invalid: false,
                },
                Some(c) => device_tree_choice(c, nano_module_id, fallback, models, table),
            };
            ModelSelection { testing_invalid: testing is Some, ..step }
        },
    }
}

/// The views of the optional compatible strings of the device tree.
pub open spec fn device_tree_view(d: Option<Option<&[String]>>) -> Option<Option<Seq<String>>> {
    match d {
        None => None,
        Some(None) => Some(None),
        Some(Some(c)) => Some(Some(c@)),
    }
}

/// Decides one step of model detection from what is known so far; the caller
/// reads what a `Need` outcome asks for and calls again.
pub fn select_model(
    testing: Option<&str>,
    device_tree: Option<Option<&[String]>>,
    nano_module_id: Option<&str>,
    fallback: Option<&str>,
    models: &[&str],
    table: &[Vec<&str>],
) -> (r: ModelSelection)
    ensures
        r == spec_select_model(
            opt_slice_view(testing),
            device_tree_view(device_tree),
            opt_slice_view(nano_module_id),
            opt_slice_view(fallback),
            models@,
            table@,
        ),
{
    proof {
        reveal_strlit("JETSON_NANO");
    }
    if let Some(t) = testing {
        if let Some(i) = find_model(t, models) {
            return ModelSelection { choice: ModelChoice::Named(i), testing_invalid: false, fallback_invalid: false };
        }
    }
    let testing_invalid = testing.is_some();
    let compatibles = match device_tree {
        None => {
            return ModelSelection { choice: ModelChoice::NeedCompatibles, testing_invalid, fallback_invalid: false };
        },
        Some(c) => c,
    };
    let detected = match compatibles {
        Some(c) => match_model(c, table),
        None => None,
    };
    match detected {
        Some(i) => {
            let is_nano = i < models.len() && models[i].to_string() == "JETSON_NANO".to_string();
            let choice = if is_nano {
                match nano_module_id {
                    None => ModelChoice::NeedNanoModuleId,
                    Some(id) => {
                        if !nano_revision_ok(id) {
                            ModelChoice::NanoTooOld
                        } else {
                            ModelChoice::Detected(i)
                        }
                    },
                }
            } else {
                ModelChoice::Detected(i)
            };
            ModelSelection { choice, testing_invalid, fallback_invalid: false }
        },
        None => {
            let named = match fallback {
                Some(f) => find_model(f, models),
                None => None,
            };
            match named {
                Some(j) => ModelSelection { choice: ModelChoice::Named(j), testing_invalid, fallback_invalid: false },
                None => ModelSelection {
                    choice: ModelChoice::Undetermined,
                    testing_invalid,
                    fallback_invalid: fallback.is_some(),
                },
            }
        },
    }
}

/// The carrier board ids of the developer kits of a model; none for a name
/// that is not a model.
pub open spec fn spec_carrier_boards(model: Seq<char>) -> Seq<Seq<char>> {
    if model == "JETSON_TX1"@ || model == "JETSON_TX2"@ {
        seq!["2597"@]
    } else if model == "CLARA_AGX_XAVIER"@ {
        seq!["3900"@]
    } else if model == "JETSON_TX2_NX"@ {
        seq!["3509"@]
    } else if model == "JETSON_XAVIER"@ {
        seq!["2822"@]
    } else if model == "JETSON_NANO"@ {
        seq!["3449"@, "3542"@]
    } else if model == "JETSON_NX"@ {
        seq!["3509"@, "3449"@]
    } else if model == "JETSON_ORIN"@ {
        seq!["3737"@]
    } else if model == "JETSON_ORIN_NX"@ || model == "JETSON_ORIN_NANO"@ {
        seq!["3509"@, "3768"@]
    } else if model == "JETSON_THOR_REFERENCE"@ {
        seq!["3971"@, "4071"@]
    } else {
        Seq::empty()
    }
}

/// Tells whether `s` is the text `t`.
fn str_is(s: &str, t: &str) -> (r: bool)
    ensures
        r == (s@ == t@),
{
    s.to_string() == t.to_string()
}

/// Returns the carrier board ids of the developer kits of a model, against
/// which the board ids of the device are checked once the model is detected.
pub fn carrier_boards(model: &str) -> (r: Vec<&'static str>)
    ensures
        r@.map_values(|b: &str| b@) == spec_carrier_boards(model@),
{
    let r: Vec<&'static str> = if str_is(model, "JETSON_TX1") || str_is(model, "JETSON_TX2") {
        vec!["2597"]
    } else if str_is(model, "CLARA_AGX_XAVIER") {
        vec!["3900"]
    } else if str_is(model, "JETSON_TX2_NX") {
        vec!["3509"]
    } else if str_is(model, "JETSON_XAVIER") {
        vec!["2822"]
    } else if str_is(model, "JETSON_NANO") {
        vec!["3449", "3542"]
    } else if str_is(model, "JETSON_NX") {
        vec!["3509", "3449"]
    } else if str_is(model, "JETSON_ORIN") {
        vec!["3737"]
    } else if str_is(model, "JETSON_ORIN_NX") || str_is(model, "JETSON_ORIN_NANO") {
        vec!["3509", "3768"]
    } else if str_is(model, "JETSON_THOR_REFERENCE") {
        vec!["3971", "4071"]
    } else {
        Vec::new()
    };
    proof {
        assert(r@.map_values(|b: &str| b@) =~= spec_carrier_boards(model@));
    }
    r
}

} // verus!
