use vstd::prelude::*;
use vstd::string::StringExecFns;

use crate::quality::Quality;
use crate::strings::matches_at;

verus! {

/// Whether `s` ends with `pat`.
pub open spec fn ends_with_spec(s: Seq<char>, pat: Seq<char>) -> bool {
    pat.len() <= s.len() && matches_at(s, pat, s.len() - pat.len())
}

/// Snapshot of the downloader's configuration; a copy travels with each job
/// at dispatch time, so a configuration change never affects in-flight jobs.
#[derive(Debug)]
pub struct DownloaderConfig {
    /// How many jobs may run at once; at least 1 for any work to happen.
    pub concurrent_downloads: usize,
    /// The requested bitrate tier.
    pub quality: Quality,
    /// Destination root directory.
    pub path: String,
    /// Template for the output file name, with `%placeholder%` fields.
    pub filename_template: String,
    /// Whether ID3v2.4 is used when tagging MP3 files.
    pub id3v24: bool,
    /// Whether the downloaded audio is re-encoded as MP3.
    pub convert_to_mp3: bool,
    /// Separator placed between multiple values of one tag field.
    pub separator: String,
}

impl Clone for DownloaderConfig {
    fn clone(&self) -> (r: Self)
        ensures
            r == *self,
    {
        DownloaderConfig {
            concurrent_downloads: self.concurrent_downloads,
            quality: self.quality,
            path: self.path.clone(),
            filename_template: self.filename_template.clone(),
            id3v24: self.id3v24,
            convert_to_mp3: self.convert_to_mp3,
            separator: self.separator.clone(),
        }
    }
}

/// Relies on `dirs::audio_dir`: the platform's audio directory. The result
/// depends on the environment, so nothing is promised of it.
#[verifier::external_body]
fn audio_dir_string() -> (r: Option<String>) {
    dirs::audio_dir().and_then(|p| p.into_os_string().into_string().ok())
}

/// Relies on `dirs::config_dir`: the platform's configuration directory. The
/// result depends on the environment, so nothing is promised of it.
#[verifier::external_body]
fn config_dir_string() -> (r: Option<String>) {
    dirs::config_dir().and_then(|p| p.into_os_string().into_string().ok())
}

impl DownloaderConfig {
    /// The default configuration, rooted in the platform's audio directory;
    /// `None` when the environment does not define one.
    pub fn default() -> (r: Option<DownloaderConfig>)
        ensures
            r matches Some(c) ==> {
                &&& c.concurrent_downloads == 4
                &&& c.quality == Quality::Q320
                &&& ends_with_spec(c.path@, "/SpotiDown"@)
                &&& c.filename_template@ == "%artist% - %title%"@
                &&& c.id3v24 == true
                &&& c.convert_to_mp3 == false
                &&& c.separator@ == ", "@
            },
    {
        match audio_dir_string() {
            Some(dir) => {
                let path = dir.concat("/SpotiDown");
                proof {
                    let p = path@;
                    let pat = "/SpotiDown"@;
                    assert(p.subrange(p.len() - pat.len(), p.len() - pat.len() + pat.len())
                        =~= pat);
                }
                Some(DownloaderConfig {
                    concurrent_downloads: 4,
                    quality: Quality::Q320,
                    path,
                    filename_template: "%artist% - %title%".to_owned(),
                    id3v24: true,
                    convert_to_mp3: false,
                    separator: ", ".to_owned(),
                })
            },
            None => None,
        }
    }
}

/// Persistent application settings: the credentials of the catalog session
/// and the downloader configuration.
#[derive(Debug)]
pub struct Settings {
    pub username: String,
    pub password: String,
    pub client_id: String,
    pub client_secret: String,
    pub downloader: DownloaderConfig,
}

impl Clone for Settings {
    fn clone(&self) -> (r: Self)
        ensures
            r == *self,
    {
        Settings {
            username: self.username.clone(),
            password: self.password.clone(),
            client_id: self.client_id.clone(),
            client_secret: self.client_secret.clone(),
            downloader: self.downloader.clone(),
        }
    }
}

impl Settings {
    /// Fresh settings for the given credentials with the default downloader
    /// configuration; `None` when the environment defines no audio directory.
    pub fn new(username: &str, password: &str, client_id: &str, client_secret: &str) -> (r:
        Option<Settings>)
        ensures
            r matches Some(s) ==> {
                &&& s.username@ == username@
                &&& s.password@ == password@
                &&& s.client_id@ == client_id@
                &&& s.client_secret@ == client_secret@
                &&& s.downloader.concurrent_downloads == 4
                &&& s.downloader.quality == Quality::Q320
                &&& ends_with_spec(s.downloader.path@, "/SpotiDown"@)
                &&& s.downloader.filename_template@ == "%artist% - %title%"@
                &&& s.downloader.id3v24 == true
                &&& s.downloader.convert_to_mp3 == false
                &&& s.downloader.separator@ == ", "@
            },
    {
        match DownloaderConfig::default() {
            Some(downloader) => Some(Settings {
                username: username.to_owned(),
                password: password.to_owned(),
                client_id: client_id.to_owned(),
                client_secret: client_secret.to_owned(),
                downloader,
            }),
            None => None,
        }
    }

    /// The directory holding the settings file; `None` when the environment
    /// defines no configuration directory.
    pub fn get_folder() -> (r: Option<String>)
        ensures
            r matches Some(p) ==> ends_with_spec(p@, "/spotidown"@),
    {
        match config_dir_string() {
            Some(dir) => {
                let path = dir.concat("/spotidown");
                proof {
                    let p = path@;
                    let pat = "/spotidown"@;
                    assert(p.subrange(p.len() - pat.len(), p.len() - pat.len() + pat.len())
                        =~= pat);
                }
                Some(path)
            },
            None => None,
        }
    }

    /// The path of the settings file itself.
    pub fn get_path() -> (r: Option<String>)
        ensures
            r matches Some(p) ==> ends_with_spec(p@, "/spotidown/settings.json"@),
    {
        match Settings::get_folder() {
            Some(folder) => {
                let ghost folder_view = folder@;
                let path = folder.concat("/settings.json");
                proof {
                    reveal_strlit("/spotidown");
                    reveal_strlit("/settings.json");
                    reveal_strlit("/spotidown/settings.json");
                    let p = path@;
                    let pat = "/spotidown/settings.json"@;
                    let sub = "/spotidown"@;
                    let tail = "/settings.json"@;
                    assert(sub.len() == 10 && tail.len() == 14 && pat.len() == 24);
                    assert(folder_view.subrange(
                        folder_view.len() - sub.len(),
                        folder_view.len() as int,
                    ) == sub);
                    assert(forall|i: int| 0 <= i < 10 ==> folder_view[folder_view.len() - 10 + i]
                        == #[trigger] sub[i]) by {
                        assert(forall|i: int| 0 <= i < 10 ==> #[trigger] folder_view.subrange(
                            folder_view.len() - 10,
                            folder_view.len() as int,
                        )[i] == folder_view[folder_view.len() - 10 + i]);
                    }
                    assert(sub + tail =~= pat);
                    assert(p.subrange(p.len() - 24, p.len() as int) =~= sub + tail);
                }
                Some(path)
            },
            None => None,
        }
    }
}

} // verus!
