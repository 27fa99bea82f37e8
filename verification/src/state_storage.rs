//! The names that the user gave to channels, and where they are kept between runs.
use vstd::prelude::*;

use crate::device_info::{Channel, DeviceInfo};
use crate::hex_text;
use crate::text;

verus! {

/// Where the state of the device is kept.
#[derive(Debug)]
pub struct StateStorage {
    /// What the path of every file starts with: the directory and a separator.
    pub path_prefix: String,
}

/// The directory in which a device keeps its state: one for each device, named by its identity.
pub open spec fn directory(state_dir: Seq<char>, separator: Seq<char>, info: DeviceInfo) -> Seq<
    char,
> {
    state_dir + separator + hex_text::hex_chars(info.factory_device_id@)
}

/// The directory in which a device keeps its state.
pub fn state_directory(state_dir: &str, separator: &str, self_info: &DeviceInfo) -> (dir: String)
    ensures
        dir@ == directory(state_dir@, separator@, *self_info),
{
    let id = hex_text::hex_encode(self_info.factory_device_id.as_slice());
    text::joined(text::joined(state_dir, separator).as_str(), id.as_str())
}

impl StateStorage {
    /// The path of the file with that name.
    pub open spec fn path(&self, name: Seq<char>) -> Seq<char> {
        self.path_prefix@ + name + ".toml"@
    }

    pub fn new(state_dir: &str, separator: &str, self_info: &DeviceInfo) -> (r: Self)
        ensures
            r.path_prefix@ == directory(state_dir@, separator@, *self_info) + separator@,
    {
        let dir = state_directory(state_dir, separator, self_info);
        StateStorage { path_prefix: text::joined(dir.as_str(), separator) }
    }

    /// The path of the file with that name.
    pub fn full_path(&self, name: &str) -> (path: String)
        ensures
            path@ == self.path(name@),
    {
        text::joined(text::joined(self.path_prefix.as_str(), name).as_str(), ".toml")
    }

    /// The path of the file that is written before it takes the place of the one with that name.
    pub fn tmp_path(&self, name: &str) -> (path: String)
        ensures
            path@ == self.path("tmp."@ + name@),
    {
        self.full_path(text::joined("tmp.", name).as_str())
    }
}

/// What is kept of a channel. A channel without a name of its own has the number zero.
#[derive(Debug)]
pub struct ChannelSettings {
    /// The number of the channel, counted from one.
    pub id: usize,
    pub friendly_name: String,
}

impl Default for ChannelSettings {
    fn default() -> (r: Self)
        ensures
            r.id == 0,
            r.friendly_name@ == Seq::<char>::empty(),
    {
        ChannelSettings { id: 0, friendly_name: String::new() }
    }
}

/// What is kept of all channels of one direction.
#[derive(Debug)]
pub struct SavedChannels {
    pub channels: Vec<ChannelSettings>,
}

/// What is kept of a channel: its number and its name.
pub struct Setting {
    pub id: nat,
    pub friendly_name: Seq<char>,
}

/// The names of a channel.
pub struct Names {
    pub factory: Seq<char>,
    pub friendly: Seq<char>,
}

impl View for ChannelSettings {
    type V = Setting;

    open spec fn view(&self) -> Setting {
        Setting { id: self.id as nat, friendly_name: self.friendly_name@ }
    }
}

/// What is kept of channels.
pub open spec fn settings(saved: Seq<ChannelSettings>) -> Seq<Setting> {
    saved.map_values(|s: ChannelSettings| s@)
}

/// What was kept, where a file that could not be read counts as empty.
pub open spec fn kept(saved: Option<SavedChannels>) -> Seq<Setting> {
    match saved {
        Some(s) => settings(s.channels@),
        None => Seq::empty(),
    }
}

/// The names of channels.
pub open spec fn names(channels: Seq<Channel>) -> Seq<Names> {
    channels.map_values(
        |c: Channel| Names { factory: c.factory_name@, friendly: c.friendly_name@ },
    )
}

/// A name is kept for the channel with that index.
pub open spec fn has_name(saved: Seq<Setting>, index: int) -> bool {
    &&& index < saved.len()
    &&& saved[index].id == index + 1
    &&& saved[index].friendly_name.len() > 0
}

/// The names of channels once the kept ones are loaded.
pub open spec fn loaded(saved: Seq<Setting>, channels: Seq<Names>) -> Seq<Names> {
    Seq::new(
        channels.len(),
        |i: int|
            if has_name(saved, i) {
                Names { factory: channels[i].factory, friendly: saved[i].friendly_name }
            } else {
                channels[i]
            },
    )
}

/// What is kept, with room for at least `n` channels.
pub open spec fn grown(saved: Seq<Setting>, n: nat) -> Seq<Setting> {
    Seq::new(
        if n > saved.len() {
            n
        } else {
            saved.len()
        },
        |i: int|
            if i < saved.len() {
                saved[i]
            } else {
                Setting { id: 0, friendly_name: Seq::empty() }
            },
    )
}

/// What is kept once a channel is renamed.
pub open spec fn resaved(saved: Seq<Setting>, index: int, name: Seq<char>) -> Seq<Setting> {
    saved.update(index, Setting { id: (index + 1) as nat, friendly_name: name })
}

/// The names of channels once one is renamed.
pub open spec fn renamed(channels: Seq<Names>, index: int, name: Seq<char>) -> Seq<Names> {
    channels.update(index, Names { factory: channels[index].factory, friendly: name })
}

/// The names of the channels of the device, as far as the user gave them.
#[derive(Debug)]
pub struct SavedChannelsSettings {
    pub rx_channels: SavedChannels,
    pub tx_channels: SavedChannels,
}

impl SavedChannelsSettings {
    /// There is room for every channel of the device.
    pub open spec fn well_formed(&self, info: DeviceInfo) -> bool {
        &&& self.rx_channels.channels@.len() >= info.rx_channels@.len()
        &&& self.tx_channels.channels@.len() >= info.tx_channels@.len()
    }

    /// Gives the channels of the device the names that were kept. A file that could not be read
    /// counts as empty.
    pub fn load(
        rx_channels: Option<SavedChannels>,
        tx_channels: Option<SavedChannels>,
        self_info: &mut DeviceInfo,
    ) -> (r: Self)
        ensures
            r.well_formed(*final(self_info)),
            settings(r.rx_channels.channels@) == grown(
                kept(rx_channels),
                old(self_info).rx_channels@.len(),
            ),
            settings(r.tx_channels.channels@) == grown(
                kept(tx_channels),
                old(self_info).tx_channels@.len(),
            ),
            names(final(self_info).rx_channels@) == loaded(
                kept(rx_channels),
                names(old(self_info).rx_channels@),
            ),
            names(final(self_info).tx_channels@) == loaded(
                kept(tx_channels),
                names(old(self_info).tx_channels@),
            ),
            *final(self_info) == (DeviceInfo {
                rx_channels: final(self_info).rx_channels,
                tx_channels: final(self_info).tx_channels,
                ..*old(self_info)
            }),
    {
        let mut rx: Vec<ChannelSettings> = match rx_channels {
            Some(saved) => saved.channels,
            None => Vec::new(),
        };
        let mut tx: Vec<ChannelSettings> = match tx_channels {
            Some(saved) => saved.channels,
            None => Vec::new(),
        };
        proof {
            if rx_channels is None {
                assert(settings(rx@) =~= Seq::empty());
            }
            if tx_channels is None {
                assert(settings(tx@) =~= Seq::empty());
            }
        }
        Self::load_and_init(&mut rx, &mut self_info.rx_channels);
        Self::load_and_init(&mut tx, &mut self_info.tx_channels);
        proof {
            assert(settings(rx@).len() == rx@.len());
            assert(settings(tx@).len() == tx@.len());
            assert(names(self_info.rx_channels@).len() == self_info.rx_channels@.len());
            assert(names(self_info.tx_channels@).len() == self_info.tx_channels@.len());
        }
        SavedChannelsSettings {
            rx_channels: SavedChannels { channels: rx },
            tx_channels: SavedChannels { channels: tx },
        }
    }

    /// Gives channels the names that were kept, and makes room for those that have none.
    pub fn load_and_init(src: &mut Vec<ChannelSettings>, dst: &mut Vec<Channel>)
        ensures
            settings(final(src)@) == grown(settings(old(src)@), old(dst)@.len()),
            names(final(dst)@) == loaded(settings(old(src)@), names(old(dst)@)),
    {
        let ghost saved = settings(src@);
        let ghost before = names(dst@);
        let count: usize = dst.len();
        let mut index: usize = 0;
        while index < src.len() && index < count
            invariant
                src@ == old(src)@,
                saved == settings(src@),
                before == names(old(dst)@),
                count == dst@.len(),
                count == old(dst)@.len(),
                index <= src@.len(),
                index <= count,
                forall|i: int|
                    0 <= i < count ==> names(dst@)[i] == if i < index {
                        loaded(saved, before)[i]
                    } else {
                        before[i]
                    },
            decreases src@.len() - index,
        {
            let ghost so_far = names(dst@);
            let id: usize = src[index].id;
            assert(saved[index as int] == src@[index as int]@);
            if id == index + 1 && !src[index].friendly_name.as_str().is_empty() {
                let name = src[index].friendly_name.clone();
                let factory_name = dst[index].factory_name.clone();
                dst.set(index, Channel { factory_name, friendly_name: name });
                assert(names(dst@) =~= so_far.update(
                    index as int,
                    Names { factory: factory_name@, friendly: name@ },
                ));
            }
            assert(so_far[index as int] == before[index as int]);
            assert forall|i: int| 0 <= i < count implies names(dst@)[i] == if i < index + 1 {
                loaded(saved, before)[i]
            } else {
                before[i]
            } by {
                assert(so_far[i] == if i < index {
                    loaded(saved, before)[i]
                } else {
                    before[i]
                });
            }
            index = index + 1;
        }
        assert(names(dst@) =~= loaded(saved, before));
        while src.len() < count
            invariant
                saved == settings(old(src)@),
                src@.len() >= saved.len(),
                src@.len() <= count || src@.len() == saved.len(),
                forall|i: int|
                    0 <= i < src@.len() ==> settings(src@)[i] == #[trigger] grown(
                        saved,
                        src@.len(),
                    )[i],
            decreases count - src@.len(),
        {
            let ghost so_far = settings(src@);
            let ghost n = src@.len();
            src.push(ChannelSettings::default());
            assert forall|i: int| 0 <= i < src@.len() implies settings(src@)[i] == #[trigger] grown(
                saved,
                src@.len(),
            )[i] by {
                if i < n {
                    assert(settings(src@)[i] == so_far[i]);
                    assert(so_far[i] == grown(saved, n)[i]);
                }
            }
        }
        assert(settings(src@) =~= grown(saved, count as nat)) by {
            assert forall|i: int| 0 <= i < src@.len() implies settings(src@)[i] == grown(
                saved,
                count as nat,
            )[i] by {
                assert(settings(src@)[i] == grown(saved, src@.len())[i]);
            }
        }
    }

    /// Gives a channel a new name, and keeps it.
    pub fn rename(
        local: &mut Vec<ChannelSettings>,
        device_channels: &mut Vec<Channel>,
        index: usize,
        name: String,
    )
        requires
            index < old(local)@.len(),
            index < old(device_channels)@.len(),
        ensures
            settings(final(local)@) == resaved(settings(old(local)@), index as int, name@),
            names(final(device_channels)@) == renamed(
                names(old(device_channels)@),
                index as int,
                name@,
            ),
    {
        let len: usize = local.len();
        assert(index < len);
        local.set(index, ChannelSettings { id: index + 1, friendly_name: name.clone() });
        let factory_name = device_channels[index].factory_name.clone();
        device_channels.set(index, Channel { factory_name, friendly_name: name });
        proof {
            assert(settings(local@) =~= resaved(settings(old(local)@), index as int, name@));
            assert(names(device_channels@) =~= renamed(
                names(old(device_channels)@),
                index as int,
                name@,
            ));
        }
    }

    /// Gives a receive channel of the device a new name. What is kept is then to be saved.
    pub fn rename_rx_channel(&mut self, self_info: &mut DeviceInfo, index: usize, name: String)
        requires
            old(self).well_formed(*old(self_info)),
            index < old(self_info).rx_channels@.len(),
        ensures
            final(self).well_formed(*final(self_info)),
            settings(final(self).rx_channels.channels@) == resaved(
                settings(old(self).rx_channels.channels@),
                index as int,
                name@,
            ),
            final(self).tx_channels == old(self).tx_channels,
            names(final(self_info).rx_channels@) == renamed(
                names(old(self_info).rx_channels@),
                index as int,
                name@,
            ),
            *final(self_info) == (DeviceInfo {
                rx_channels: final(self_info).rx_channels,
                ..*old(self_info)
            }),
    {
        Self::rename(&mut self.rx_channels.channels, &mut self_info.rx_channels, index, name);
        proof {
            assert(settings(self.rx_channels.channels@).len() == self.rx_channels.channels@.len());
            assert(names(self_info.rx_channels@).len() == self_info.rx_channels@.len());
        }
    }

    /// Gives a transmit channel of the device a new name. What is kept is then to be saved.
    pub fn rename_tx_channel(&mut self, self_info: &mut DeviceInfo, index: usize, name: String)
        requires
            old(self).well_formed(*old(self_info)),
            index < old(self_info).tx_channels@.len(),
        ensures
            final(self).well_formed(*final(self_info)),
            settings(final(self).tx_channels.channels@) == resaved(
                settings(old(self).tx_channels.channels@),
                index as int,
                name@,
            ),
            final(self).rx_channels == old(self).rx_channels,
            names(final(self_info).tx_channels@) == renamed(
                names(old(self_info).tx_channels@),
                index as int,
                name@,
            ),
            *final(self_info) == (DeviceInfo {
                tx_channels: final(self_info).tx_channels,
                ..*old(self_info)
            }),
    {
        Self::rename(&mut self.tx_channels.channels, &mut self_info.tx_channels, index, name);
        proof {
            assert(settings(self.tx_channels.channels@).len() == self.tx_channels.channels@.len());
            assert(names(self_info.tx_channels@).len() == self_info.tx_channels@.len());
        }
    }
}

/// A name that is not empty survives a restart: loading what was kept when the channel was renamed
/// gives the channel that name, and every other channel the name it would have had.
pub proof fn rename_survives_restart(
    saved: Seq<Setting>,
    initial: Seq<Names>,
    index: int,
    name: Seq<char>,
)
    requires
        0 <= index < saved.len(),
        index < initial.len(),
        name.len() > 0,
    ensures
        loaded(resaved(saved, index, name), initial) == renamed(
            loaded(saved, initial),
            index,
            name,
        ),
        loaded(resaved(saved, index, name), initial)[index].friendly == name,
{
    assert(loaded(resaved(saved, index, name), initial) =~= renamed(
        loaded(saved, initial),
        index,
        name,
    ));
}

/// Loading makes no difference the second time, and neither does the room made by the first.
pub proof fn loading_is_idempotent(saved: Seq<Setting>, initial: Seq<Names>)
    ensures
        loaded(saved, loaded(saved, initial)) == loaded(saved, initial),
        loaded(grown(saved, initial.len()), initial) == loaded(saved, initial),
        grown(grown(saved, initial.len()), initial.len()) == grown(saved, initial.len()),
{
    assert(loaded(saved, loaded(saved, initial)) =~= loaded(saved, initial));
    assert(loaded(grown(saved, initial.len()), initial) =~= loaded(saved, initial));
    assert(grown(grown(saved, initial.len()), initial.len()) =~= grown(saved, initial.len()));
}

/// Of two renamings of a channel the later one counts; renamings of different channels do not
/// disturb each other.
pub proof fn renamings_combine(
    saved: Seq<Setting>,
    i: int,
    a: Seq<char>,
    j: int,
    b: Seq<char>,
)
    requires
        0 <= i < saved.len(),
        0 <= j < saved.len(),
    ensures
        i == j ==> resaved(resaved(saved, i, a), j, b) == resaved(saved, j, b),
        i != j ==> resaved(resaved(saved, i, a), j, b) == resaved(resaved(saved, j, b), i, a),
{
    if i == j {
        assert(resaved(resaved(saved, i, a), j, b) =~= resaved(saved, j, b));
    } else {
        assert(resaved(resaved(saved, i, a), j, b) =~= resaved(resaved(saved, j, b), i, a));
    }
}

/// No renaming changes the name that a channel was made with, or the number of channels.
pub proof fn factory_names_stay(
    saved: Seq<Setting>,
    channels: Seq<Names>,
    index: int,
    name: Seq<char>,
    i: int,
)
    requires
        0 <= index < channels.len(),
        0 <= i < channels.len(),
    ensures
        renamed(channels, index, name).len() == channels.len(),
        renamed(channels, index, name)[i].factory == channels[i].factory,
        loaded(saved, channels).len() == channels.len(),
        loaded(saved, channels)[i].factory == channels[i].factory,
{
}

/// The names are those that a restart would show, if the channels start with the names `initial`.
pub open spec fn shows_what_a_restart_shows(
    saved: Seq<Setting>,
    channels: Seq<Names>,
    initial: Seq<Names>,
) -> bool {
    channels == loaded(saved, initial)
}

/// After loading, and after every renaming to a name that is not empty, the device shows the names
/// that a restart would show.
pub proof fn device_shows_what_a_restart_shows(
    saved: Seq<Setting>,
    channels: Seq<Names>,
    initial: Seq<Names>,
    index: int,
    name: Seq<char>,
)
    requires
        0 <= index < saved.len(),
        index < initial.len(),
        name.len() > 0,
    ensures
        shows_what_a_restart_shows(
            grown(saved, initial.len()),
            loaded(saved, initial),
            initial,
        ),
        shows_what_a_restart_shows(saved, channels, initial) ==> shows_what_a_restart_shows(
            resaved(saved, index, name),
            renamed(channels, index, name),
            initial,
        ),
{
    loading_is_idempotent(saved, initial);
    rename_survives_restart(saved, initial, index, name);
}

} // verus!
