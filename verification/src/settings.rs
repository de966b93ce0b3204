use crate::editing::{edit_line, edited};
use crate::realdebrid::PLACEHOLDER_TOKEN;
use crate::search_keys::only_status;
use crate::session::{App, AppMode, Command, Key, SettingsField};
use crate::text::{char_len, joined, same_text};
use vstd::prelude::*;
use vstd::string::*;

verus! {

/// The field after `field`, going round.
pub open spec fn next_field(field: SettingsField) -> SettingsField {
    match field {
        SettingsField::RdApiToken => SettingsField::FirecrawlApiKey,
        SettingsField::FirecrawlApiKey => SettingsField::DownloadDir,
        SettingsField::DownloadDir => SettingsField::RdApiToken,
    }
}

/// The field before `field`, going round.
pub open spec fn prev_field(field: SettingsField) -> SettingsField {
    match field {
        SettingsField::RdApiToken => SettingsField::DownloadDir,
        SettingsField::FirecrawlApiKey => SettingsField::RdApiToken,
        SettingsField::DownloadDir => SettingsField::FirecrawlApiKey,
    }
}

/// The session went to the settings field `field`, the cursor at the end of
/// its input.
pub open spec fn field_entered(pre: App, post: App, field: SettingsField) -> bool {
    post == (App {
        settings_field: field,
        settings_cursor: (App { settings_field: field, ..pre }).current_input()@.len() as usize,
        ..pre
    })
}

/// The current settings input and its cursor went through an editing key;
/// the other two inputs are as they were.
pub open spec fn settings_edited(pre: App, key: Key, post: App) -> bool {
    &&& (post.current_input()@, post.settings_cursor as int) == edited(
        pre.current_input()@,
        pre.settings_cursor as int,
        key,
    )
    &&& pre.settings_field != SettingsField::RdApiToken ==> post.settings_rd_token
        == pre.settings_rd_token
    &&& pre.settings_field != SettingsField::FirecrawlApiKey ==> post.settings_firecrawl_key
        == pre.settings_firecrawl_key
    &&& pre.settings_field != SettingsField::DownloadDir ==> post.settings_download_dir
        == pre.settings_download_dir
    &&& post == (App {
        settings_rd_token: post.settings_rd_token,
        settings_firecrawl_key: post.settings_firecrawl_key,
        settings_download_dir: post.settings_download_dir,
        settings_cursor: post.settings_cursor,
        ..pre
    })
}

/// One line of the settings file: nothing for an empty value.
pub open spec fn settings_line(name: Seq<char>, value: Seq<char>) -> Seq<char> {
    if value.len() == 0 {
        Seq::empty()
    } else {
        name + "="@ + value + "\n"@
    }
}

/// The content of the settings file for the three inputs.
pub open spec fn settings_content(token: Seq<char>, key: Seq<char>, dir: Seq<char>) -> Seq<char> {
    "# littlejohn configuration\n\n"@ + settings_line("RD_API_TOKEN"@, token) + settings_line(
        "FIRECRAWL_API_KEY"@,
        key,
    ) + settings_line("DOWNLOAD_DIR"@, dir)
}

/// A token with which the resolution service can be called: not empty and
/// not the placeholder of the sample configuration.
pub open spec fn token_usable(token: Seq<char>) -> bool {
    token.len() > 0 && token != PLACEHOLDER_TOKEN@
}

/// `cmd` writes the settings of `pre` to the settings file.
pub open spec fn saves_settings(cmd: Command, pre: App) -> bool {
    cmd matches Command::SaveSettings { content } && content@ == settings_content(
        pre.settings_rd_token@,
        pre.settings_firecrawl_key@,
        pre.settings_download_dir@,
    )
}

/// What a key does in the first-run setup.
pub open spec fn setup_key_effect(pre: App, key: Key, post: App, cmd: Command) -> bool {
    match key {
        Key::Tab | Key::Down => cmd is Nothing && field_entered(
            pre,
            post,
            next_field(pre.settings_field),
        ),
        Key::BackTab | Key::Up => cmd is Nothing && field_entered(
            pre,
            post,
            prev_field(pre.settings_field),
        ),
        Key::Enter => if pre.settings_rd_token@.len() == 0 {
            cmd is Nothing && only_status(pre, post, "RD API Token is required"@)
        } else {
            saves_settings(cmd, pre) && post == pre
        },
        Key::Esc => {
            &&& cmd is Nothing
            &&& post.status@ == "Setup skipped. Press Shift+S to configure settings."@
            &&& post == (App { status: post.status, mode: AppMode::Search, ..pre })
        },
        _ => cmd is Nothing && settings_edited(pre, key, post),
    }
}

/// What a key does on the settings screen.
pub open spec fn settings_key_effect(pre: App, key: Key, post: App, cmd: Command) -> bool {
    match key {
        Key::Enter => saves_settings(cmd, pre) && post == pre,
        Key::Esc => cmd is ReloadSettings && post == (App { mode: AppMode::Search, ..pre }),
        _ => setup_key_effect(pre, key, post, cmd),
    }
}

/// What the outcome of writing the settings file does to the session.
pub open spec fn settings_saved_effect(pre: App, outcome: Result<(), String>, post: App) -> bool {
    match outcome {
        Ok(_) => {
            &&& post.status@ == "Settings saved!"@
            &&& post == (App {
                rd_configured: if pre.settings_rd_token@.len() == 0 {
                    pre.rd_configured
                } else {
                    token_usable(pre.settings_rd_token@)
                },
                status: post.status,
                mode: AppMode::Search,
                ..pre
            })
        },
        Err(e) => only_status(pre, post, "Failed to save: "@ + e@),
    }
}

/// Appends one line of the settings file.
fn push_settings_line(content: &mut String, name: &str, value: &str)
    ensures
        final(content)@ == old(content)@ + settings_line(name@, value@),
{
    if !value.is_empty() {
        content.append(name);
        content.append("=");
        content.append(value);
        content.append("\n");
        assert(content@ =~= old(content)@ + (name@ + "="@ + value@ + "\n"@));
    } else {
        assert(content@ =~= old(content)@ + Seq::<char>::empty());
    }
}

/// Whether the resolution service can be called with `token`.
pub fn usable_token(token: &str) -> (b: bool)
    ensures
        b == token_usable(token@),
{
    !token.is_empty() && !same_text(token, PLACEHOLDER_TOKEN)
}

impl App {
    /// Goes to the settings field `field` and puts the cursor at the end of
    /// its input.
    fn enter_field(&mut self, field: SettingsField)
        ensures
            field_entered(*old(self), *final(self), field),
            final(self).settings_cursor <= final(self).current_input()@.len(),
    {
        self.settings_field = field;
        self.settings_cursor = char_len(self.current_settings_input());
    }

    /// The settings input that is being edited, for changing it in place.
    pub fn current_settings_input_mut(&mut self) -> (input: &mut String)
        ensures
            *input == old(self).current_input(),
            *final(self) == match old(self).settings_field {
                SettingsField::RdApiToken => App { settings_rd_token: *final(input), ..*old(self) },
                SettingsField::FirecrawlApiKey => App {
                    settings_firecrawl_key: *final(input),
                    ..*old(self)
                },
                SettingsField::DownloadDir => App {
                    settings_download_dir: *final(input),
                    ..*old(self)
                },
            },
    {
        match self.settings_field {
            SettingsField::RdApiToken => &mut self.settings_rd_token,
            SettingsField::FirecrawlApiKey => &mut self.settings_firecrawl_key,
            SettingsField::DownloadDir => &mut self.settings_download_dir,
        }
    }

    /// Goes to the next settings field.
    pub fn next_settings_field(&mut self)
        ensures
            field_entered(*old(self), *final(self), next_field(old(self).settings_field)),
            old(self).wf() ==> final(self).wf(),
    {
        let field = match self.settings_field {
            SettingsField::RdApiToken => SettingsField::FirecrawlApiKey,
            SettingsField::FirecrawlApiKey => SettingsField::DownloadDir,
            SettingsField::DownloadDir => SettingsField::RdApiToken,
        };
        self.enter_field(field);
    }

    /// Goes to the settings field before the current one.
    pub fn prev_settings_field(&mut self)
        ensures
            field_entered(*old(self), *final(self), prev_field(old(self).settings_field)),
            old(self).wf() ==> final(self).wf(),
    {
        let field = match self.settings_field {
            SettingsField::RdApiToken => SettingsField::DownloadDir,
            SettingsField::FirecrawlApiKey => SettingsField::RdApiToken,
            SettingsField::DownloadDir => SettingsField::FirecrawlApiKey,
        };
        self.enter_field(field);
    }

    /// The content of the settings file for the three inputs: a heading, then
    /// one line for each input that is not empty.
    pub fn settings_file_content(&self) -> (content: String)
        ensures
            content@ == settings_content(
                self.settings_rd_token@,
                self.settings_firecrawl_key@,
                self.settings_download_dir@,
            ),
    {
        let mut content = String::from_str("# littlejohn configuration\n\n");
        push_settings_line(&mut content, "RD_API_TOKEN", self.settings_rd_token.as_str());
        push_settings_line(&mut content, "FIRECRAWL_API_KEY", self.settings_firecrawl_key.as_str());
        push_settings_line(&mut content, "DOWNLOAD_DIR", self.settings_download_dir.as_str());
        content
    }

    /// Takes the token of the settings as the credential of the resolution
    /// service; an empty token changes nothing.
    pub fn reinit_rd_client(&mut self)
        ensures
            *final(self) == (App {
                rd_configured: if old(self).settings_rd_token@.len() == 0 {
                    old(self).rd_configured
                } else {
                    token_usable(old(self).settings_rd_token@)
                },
                ..*old(self)
            }),
    {
        if !self.settings_rd_token.as_str().is_empty() {
            self.rd_configured = usable_token(self.settings_rd_token.as_str());
        }
    }

    /// Applies the outcome of writing the settings file: on success the token
    /// is taken over and the search screen shown, on failure the status line
    /// says why.
    pub fn settings_saved(&mut self, outcome: Result<(), String>)
        ensures
            settings_saved_effect(*old(self), outcome, *final(self)),
            old(self).wf() ==> final(self).wf(),
    {
        match outcome {
            Ok(_) => {
                self.reinit_rd_client();
                self.status = String::from_str("Settings saved!");
                self.mode = AppMode::Search;
            },
            Err(e) => {
                self.status = joined("Failed to save: ", e.as_str());
            },
        }
    }

    /// Puts the three settings back to the values given, the cursor at the
    /// end of the current input.
    pub fn restore_settings(&mut self, rd_token: String, firecrawl_key: String, download_dir: String)
        ensures
            field_entered(
                App {
                    settings_rd_token: rd_token,
                    settings_firecrawl_key: firecrawl_key,
                    settings_download_dir: download_dir,
                    ..*old(self)
                },
                *final(self),
                old(self).settings_field,
            ),
            old(self).wf() ==> final(self).wf(),
    {
        self.settings_rd_token = rd_token;
        self.settings_firecrawl_key = firecrawl_key;
        self.settings_download_dir = download_dir;
        let field = self.settings_field;
        self.enter_field(field);
    }

    /// Applies an editing key to the current settings input.
    fn edit_settings(&mut self, key: Key)
        requires
            old(self).wf(),
        ensures
            final(self).wf(),
            settings_edited(*old(self), key, *final(self)),
    {
        match self.settings_field {
            SettingsField::RdApiToken => {
                self.settings_cursor = edit_line(&mut self.settings_rd_token, self.settings_cursor, key);
            },
            SettingsField::FirecrawlApiKey => {
                self.settings_cursor = edit_line(
                    &mut self.settings_firecrawl_key,
                    self.settings_cursor,
                    key,
                );
            },
            SettingsField::DownloadDir => {
                self.settings_cursor = edit_line(
                    &mut self.settings_download_dir,
                    self.settings_cursor,
                    key,
                );
            },
        }
    }

    /// Applies a key press in the first-run setup and says what work it asks
    /// for.
    pub fn handle_setup_keys(&mut self, key: Key) -> (cmd: Command)
        requires
            old(self).wf(),
        ensures
            final(self).wf(),
            setup_key_effect(*old(self), key, *final(self), cmd),
    {
        match key {
            Key::Tab | Key::Down => {
                self.next_settings_field();
                Command::Nothing
            },
            Key::BackTab | Key::Up => {
                self.prev_settings_field();
                Command::Nothing
            },
            Key::Enter => {
                if self.settings_rd_token.as_str().is_empty() {
                    self.status = String::from_str("RD API Token is required");
                    Command::Nothing
                } else {
                    Command::SaveSettings { content: self.settings_file_content() }
                }
            },
            Key::Esc => {
                self.mode = AppMode::Search;
                self.status = String::from_str("Setup skipped. Press Shift+S to configure settings.");
                Command::Nothing
            },
            _ => {
                self.edit_settings(key);
                Command::Nothing
            },
        }
    }

    /// Applies a key press on the settings screen and says what work it asks
    /// for.
    pub fn handle_settings_keys(&mut self, key: Key) -> (cmd: Command)
        requires
            old(self).wf(),
        ensures
            final(self).wf(),
            settings_key_effect(*old(self), key, *final(self), cmd),
    {
        match key {
            Key::Enter => Command::SaveSettings { content: self.settings_file_content() },
            Key::Esc => {
                self.mode = AppMode::Search;
                Command::ReloadSettings
            },
            _ => self.handle_setup_keys(key),
        }
    }
}

} // verus!
