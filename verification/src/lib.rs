//! The playback library behind Audio Orbit: playlists, folder synchronisation,
//! favorites, ordering, radio stations and the decisions of the player.

pub mod app;
pub mod app_laws;
pub mod browsing_laws;
pub mod calendar;
pub mod counting;
pub mod dialog_laws;
pub mod dj_mix;
pub mod external_files;
pub mod favorite_laws;
pub mod file_operations;
pub mod folder_sync;
pub mod group_laws;
pub mod grouping;
pub mod index_set;
pub mod library;
pub mod library_laws;
pub mod library_panel;
pub mod library_sync;
pub mod list_laws;
pub mod listing;
pub mod live_source;
pub mod lookup;
pub mod membership;
pub mod membership_laws;
pub mod metrics;
pub mod mix_builder;
pub mod mix_laws;
pub mod moving;
pub mod navigation;
pub mod open_requests;
pub mod order_laws;
pub mod ordering;
pub mod output_device;
pub mod panels;
pub mod paths;
pub mod playback;
pub mod playback_laws;
pub mod player;
pub mod player_laws;
pub mod playlist;
pub mod profiles;
pub mod progress_laws;
pub mod radio;
pub mod radio_laws;
pub mod scan_laws;
pub mod scanning;
pub mod seeking;
pub mod selection;
pub mod session;
pub mod session_laws;
pub mod settings;
pub mod shell_laws;
pub mod silence;
pub mod sorting;
pub mod starting;
pub mod sound_laws;
pub mod startup;
pub mod state;
pub mod station_list;
pub mod submenu;
pub mod sync_laws;
pub mod text;
pub mod text_laws;
pub mod text_set;
pub mod track;
pub mod track_files;
pub mod track_laws;
pub mod track_list;
pub mod track_menu;
pub mod updates;
pub mod version;
pub mod window;

use vstd::prelude::*;

verus! {

} // verus!
