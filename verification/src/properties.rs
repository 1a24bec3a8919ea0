use vstd::prelude::*;

use crate::editor::EditorData;
use crate::map_data::{MapData, Weather, weather_of, ZONE_COUNT};

verus! {

/// The music files the editor offers; the first entry, "None", stands for no music.
#[derive(Debug)]
pub struct AudioCollection {
    pub audio: Vec<String>,
}

impl AudioCollection {
    /// A collection with no music files listed.
    pub fn default() -> (c: AudioCollection)
        ensures
            c.audio@.len() == 0,
    {
        AudioCollection { audio: Vec::new() }
    }
}

/// Entry `r` of the music list shows a map's music `music`: it is the first entry named like
/// it, or the first entry when there is none (or no music).
pub open spec fn shows_music(audio: Seq<String>, music: Option<String>, r: int) -> bool {
    match music {
        Some(m) => {
            ||| (0 <= r < audio.len() && audio[r]@ == m@ && forall|j: int| 0 <= j < r ==> audio[j]@ != m@)
            ||| (r == 0 && forall|j: int| 0 <= j < audio.len() ==> audio[j]@ != m@)
        },
        None => r == 0,
    }
}

/// The list entry that shows a map's music: the first entry named like it, else the first entry.
pub fn music_index(audio: &Vec<String>, music: &Option<String>) -> (r: usize)
    ensures
        shows_music(audio@, *music, r as int),
{
    match music {
        None => 0,
        Some(m) => {
            let mut i: usize = 0;
            while i < audio.len()
                invariant
                    i <= audio@.len(),
                    *music == Some(*m),
                    forall|j: int| 0 <= j < i ==> audio@[j]@ != m@,
                decreases audio@.len() - i,
            {
                if audio[i] == *m {
                    return i;
                }
                i = i + 1;
            }
            0
        },
    }
}

/// The music a list entry chooses: its name, or none for an entry named "None" or past the list.
pub open spec fn music_of_entry(audio: Seq<String>, index: int) -> Option<Seq<char>> {
    if 0 <= index < audio.len() && audio[index]@ != "None"@ {
        Some(audio[index]@)
    } else {
        None
    }
}

/// Sets the map's music to the one list entry `index` chooses (see [`music_of_entry`]);
/// the map is marked changed and not saved to its temporary file.
pub fn choose_music(data: &mut EditorData, audio: &Vec<String>, index: usize)
    requires
        old(data).wf(),
    ensures
        final(data).wf(),
        match music_of_entry(audio@, index as int) {
            Some(m) => final(data).mapdata.music matches Some(s) && s@ == m,
            None => final(data).mapdata.music is None,
        },
        final(data).changed,
        !final(data).temp_saved,
        final(data).mapdata == (MapData { music: final(data).mapdata.music, ..old(data).mapdata }),
        final(data).same_history(*old(data)),
{
    let music: Option<String> = if index < audio.len() {
        let name = audio[index].clone();
        if name == "None".to_owned() {
            None
        } else {
            Some(name)
        }
    } else {
        None
    };
    data.mapdata.music = music;
    data.changed = true;
    data.temp_saved = false;
}

/// Sets the map's weather to the one at list position `index`; the map is marked changed and
/// not saved to its temporary file.
pub fn choose_weather(data: &mut EditorData, index: usize)
    requires
        old(data).wf(),
    ensures
        final(data).wf(),
        final(data).mapdata.weather == weather_of(index),
        final(data).changed,
        !final(data).temp_saved,
        final(data).mapdata == (MapData { weather: final(data).mapdata.weather, ..old(data).mapdata }),
        final(data).same_history(*old(data)),
{
    data.mapdata.weather = Weather::from_index(index);
    data.changed = true;
    data.temp_saved = false;
}

/// Takes the number typed in text box `index` of zone `zone`'s window: box 0 holds the zone's
/// count and keeps its value when the text is not a number; box `k + 1` holds entry `k` of the
/// zone's list, which becomes empty when the text is not a number.
pub fn apply_zone_text(data: &mut EditorData, zone: usize, index: usize, parsed: Option<u64>)
    requires
        old(data).wf(),
        zone < ZONE_COUNT,
        index < 6,
    ensures
        final(data).wf(),
        index == 0 ==> final(data).mapdata.zones@ == match parsed {
            Some(v) => old(data).mapdata.zones@.update(zone as int, (v, old(data).mapdata.zones[zone as int].1)),
            None => old(data).mapdata.zones@,
        },
        index > 0 ==> final(data).mapdata.zones@ == old(data).mapdata.zones@.update(zone as int, (
            old(data).mapdata.zones[zone as int].0,
            final(data).mapdata.zones[zone as int].1,
        )),
        index > 0 ==> final(data).mapdata.zones[zone as int].1@ == old(data).mapdata.zones[zone as int].1@.update(
            index - 1,
            parsed,
        ),
        final(data).mapdata == (MapData { zones: final(data).mapdata.zones, ..old(data).mapdata }),
        final(data).changed == old(data).changed,
        final(data).temp_saved == old(data).temp_saved,
        final(data).same_history(*old(data)),
{
    if index == 0 {
        if let Some(val) = parsed {
            data.mapdata.zones[zone].0 = val;
        }
    } else {
        let id = index - 1;
        data.mapdata.zones[zone].1[id] = parsed;
    }
}

} // verus!
