use vstd::prelude::*;
use vstd::string::*;

use crate::map_data::MapPosition;

verus! {

/// What an alert asks of the user: nothing (information), yes or no, or a text.
#[derive(Clone, Copy, PartialEq, Eq, Structural, Debug)]
pub enum AlertType {
    Inform,
    Confirm,
    Input,
}

impl AlertType {
    pub fn default() -> (t: AlertType)
        ensures
            t == AlertType::Inform,
    {
        AlertType::Inform
    }
}

/// What an alert is about, which decides what its options do.
#[derive(Clone, Copy, PartialEq, Eq, Structural, Debug)]
pub enum AlertIndex {
    NoIndex,
    ExitEditor,
    ExitSaveMap(MapPosition),
    LoadTempFile(MapPosition),
    LoadRecoveryFile,
    SavePreset,
}

impl AlertIndex {
    pub fn default() -> (i: AlertIndex)
        ensures
            i == AlertIndex::NoIndex,
    {
        AlertIndex::NoIndex
    }
}

/// The text box of an input alert: its text, whether it has the keyboard, and whether it
/// takes digits only.
#[derive(Debug)]
pub struct AlertTextbox {
    pub text: String,
    pub selected: bool,
    pub numeric_only: bool,
}

/// The description of an alert to show.
#[derive(Debug)]
pub struct AlertBuilder {
    pub alert_type: AlertType,
    pub msg: String,
    pub header: String,
    pub width: usize,
    pub custom_index: AlertIndex,
    pub numeric_only: bool,
    pub textbox_limit: usize,
    pub allow_action: bool,
    pub with_checkbox: bool,
    pub checkbox_text: String,
}

impl AlertBuilder {
    /// The builder's settings when nothing else is asked: an information alert, 250 wide,
    /// a text limit of 10, no checkbox, blocking other input.
    pub open spec fn is_default_except_text(self) -> bool {
        &&& self.width == 250
        &&& self.custom_index == AlertIndex::NoIndex
        &&& self.textbox_limit == 10
        &&& !self.allow_action
        &&& !self.with_checkbox
        &&& self.checkbox_text@ == Seq::<char>::empty()
    }

    pub fn default() -> (b: AlertBuilder)
        ensures
            b.is_default_except_text(),
            b.alert_type == AlertType::Inform,
            b.msg@ == Seq::<char>::empty(),
            b.header@ == Seq::<char>::empty(),
            !b.numeric_only,
    {
        AlertBuilder {
            alert_type: AlertType::Inform,
            msg: String::new(),
            header: String::new(),
            width: 250,
            numeric_only: false,
            textbox_limit: 10,
            custom_index: AlertIndex::NoIndex,
            allow_action: false,
            with_checkbox: false,
            checkbox_text: String::new(),
        }
    }

    /// An information alert with a header and a message.
    pub fn new_info(header: &str, msg: &str) -> (b: Self)
        ensures
            b.is_default_except_text(),
            b.alert_type == AlertType::Inform,
            b.header@ == header@,
            b.msg@ == msg@,
            !b.numeric_only,
    {
        let mut b = AlertBuilder::default();
        b.header = header.to_owned();
        b.msg = msg.to_owned();
        b
    }

    /// An alert that asks for a text.
    pub fn new_txt_input(header: &str) -> (b: Self)
        ensures
            b.is_default_except_text(),
            b.alert_type == AlertType::Input,
            b.header@ == header@,
            b.msg@ == Seq::<char>::empty(),
            !b.numeric_only,
    {
        let mut b = AlertBuilder::default();
        b.header = header.to_owned();
        b.alert_type = AlertType::Input;
        b.numeric_only = false;
        b
    }

    /// An alert that asks for a number.
    pub fn new_num_input(header: &str) -> (b: Self)
        ensures
            b.is_default_except_text(),
            b.alert_type == AlertType::Input,
            b.header@ == header@,
            b.msg@ == Seq::<char>::empty(),
            b.numeric_only,
    {
        let mut b = AlertBuilder::default();
        b.header = header.to_owned();
        b.alert_type = AlertType::Input;
        b.numeric_only = true;
        b
    }

    /// An alert that asks yes or no.
    pub fn new_confirm(header: &str, msg: &str) -> (b: Self)
        ensures
            b.is_default_except_text(),
            b.alert_type == AlertType::Confirm,
            b.header@ == header@,
            b.msg@ == msg@,
            !b.numeric_only,
    {
        let mut b = AlertBuilder::default();
        b.header = header.to_owned();
        b.msg = msg.to_owned();
        b.alert_type = AlertType::Confirm;
        b
    }

    /// Adds a checkbox with the text `msg`.
    pub fn with_checkbox(&mut self, msg: &str) -> (r: &mut Self)
        ensures
            r.checkbox_text@ == msg@,
            r.with_checkbox,
            r.alert_type == old(self).alert_type,
            r.msg == old(self).msg,
            r.header == old(self).header,
            r.width == old(self).width,
            r.custom_index == old(self).custom_index,
            r.numeric_only == old(self).numeric_only,
            r.textbox_limit == old(self).textbox_limit,
            r.allow_action == old(self).allow_action,
            *final(self) == *final(r),
    {
        self.checkbox_text = msg.to_owned();
        self.with_checkbox = true;
        self
    }

    /// Appends `msg` to the message.
    pub fn with_msg(&mut self, msg: &str) -> (r: &mut Self)
        ensures
            r.msg@ == old(self).msg@ + msg@,
            r.alert_type == old(self).alert_type,
            r.header == old(self).header,
            r.width == old(self).width,
            r.custom_index == old(self).custom_index,
            r.numeric_only == old(self).numeric_only,
            r.textbox_limit == old(self).textbox_limit,
            r.allow_action == old(self).allow_action,
            r.with_checkbox == old(self).with_checkbox,
            r.checkbox_text == old(self).checkbox_text,
            *final(self) == *final(r),
    {
        self.msg.append(msg);
        self
    }

    /// Sets the width of the message.
    pub fn with_width(&mut self, max_width: usize) -> (r: &mut Self)
        ensures
            *r == (AlertBuilder { width: max_width, ..*old(self) }),
            *final(self) == *final(r),
    {
        self.width = max_width;
        self
    }

    /// Sets whether the text box takes digits only.
    pub fn with_numeric_only(&mut self, is_numeric: bool) -> (r: &mut Self)
        ensures
            *r == (AlertBuilder { numeric_only: is_numeric, ..*old(self) }),
            *final(self) == *final(r),
    {
        self.numeric_only = is_numeric;
        self
    }

    /// Sets the longest text the text box takes.
    pub fn with_limit(&mut self, textbox_limit: usize) -> (r: &mut Self)
        ensures
            *r == (AlertBuilder { textbox_limit, ..*old(self) }),
            *final(self) == *final(r),
    {
        self.textbox_limit = textbox_limit;
        self
    }

    /// Sets what the alert is about.
    pub fn with_index(&mut self, custom_index: AlertIndex) -> (r: &mut Self)
        ensures
            *r == (AlertBuilder { custom_index, ..*old(self) }),
            *final(self) == *final(r),
    {
        self.custom_index = custom_index;
        self
    }

    /// Sets the kind of the alert.
    pub fn with_type(&mut self, alert_type: AlertType) -> (r: &mut Self)
        ensures
            *r == (AlertBuilder { alert_type, ..*old(self) }),
            *final(self) == *final(r),
    {
        self.alert_type = alert_type;
        self
    }

    /// Sets whether other input goes on while the alert shows.
    pub fn with_allow_action(&mut self, allow_action: bool) -> (r: &mut Self)
        ensures
            *r == (AlertBuilder { allow_action, ..*old(self) }),
            *final(self) == *final(r),
    {
        self.allow_action = allow_action;
        self
    }
}

/// What choosing an option of an alert does.
#[derive(Clone, Copy, PartialEq, Eq, Structural, Debug)]
pub enum AlertOutcome {
    /// Close the alert.
    Hide,
    /// Leave the editor; `Some(true)` asks to save the other unsaved maps too.
    ExitEditor(Option<bool>),
    /// Load the temporary file of the map, then close the alert.
    LoadTempFile(MapPosition),
    /// Delete the temporary file of the map, then close the alert.
    DeleteTempFile(MapPosition),
    /// Save the map from its temporary file, then leave the editor.
    SaveAndExit(MapPosition, Option<bool>),
    /// Load the recovery file, then close the alert.
    LoadRecoveryFile,
    /// Delete the recovery file, then close the alert.
    DeleteRecoveryFile,
    /// Save the preset under the text entered, then close the alert.
    SavePreset,
    /// Nothing happens.
    Nothing,
}

/// What choosing option `option` (0 yes, other no) of an alert does. `checkbox` is the value of
/// its checkbox, `has_textbox` whether an input alert has its text box.
pub open spec fn alert_outcome(
    alert_type: AlertType,
    index: AlertIndex,
    option: usize,
    checkbox: bool,
    has_textbox: bool,
) -> AlertOutcome {
    let save_all = if checkbox {
        Some(true)
    } else {
        None
    };
    match alert_type {
        AlertType::Inform => AlertOutcome::Hide,
        AlertType::Confirm => if option == 0 {
            match index {
                AlertIndex::ExitEditor => AlertOutcome::ExitEditor(None),
                AlertIndex::LoadTempFile(p) => AlertOutcome::LoadTempFile(p),
                AlertIndex::ExitSaveMap(p) => AlertOutcome::SaveAndExit(p, save_all),
                AlertIndex::LoadRecoveryFile => AlertOutcome::LoadRecoveryFile,
                _ => AlertOutcome::Hide,
            }
        } else {
            match index {
                AlertIndex::LoadTempFile(p) => AlertOutcome::DeleteTempFile(p),
                AlertIndex::ExitSaveMap(_) => AlertOutcome::ExitEditor(save_all),
                AlertIndex::LoadRecoveryFile => AlertOutcome::DeleteRecoveryFile,
                _ => AlertOutcome::Hide,
            }
        },
        AlertType::Input => if !has_textbox {
            AlertOutcome::Nothing
        } else if option == 0 && index == AlertIndex::SavePreset {
            AlertOutcome::SavePreset
        } else {
            AlertOutcome::Hide
        },
    }
}

/// What choosing option `option` (0 yes, other no) of an alert does.
pub fn select_option(
    alert_type: AlertType,
    index: AlertIndex,
    option: usize,
    checkbox: bool,
    has_textbox: bool,
) -> (r: AlertOutcome)
    ensures
        r == alert_outcome(alert_type, index, option, checkbox, has_textbox),
{
    let save_all = if checkbox {
        Some(true)
    } else {
        None
    };
    match alert_type {
        AlertType::Inform => AlertOutcome::Hide,
        AlertType::Confirm => {
            if option == 0 {
                match index {
                    AlertIndex::ExitEditor => AlertOutcome::ExitEditor(None),
                    AlertIndex::LoadTempFile(p) => AlertOutcome::LoadTempFile(p),
                    AlertIndex::ExitSaveMap(p) => AlertOutcome::SaveAndExit(p, save_all),
                    AlertIndex::LoadRecoveryFile => AlertOutcome::LoadRecoveryFile,
                    _ => AlertOutcome::Hide,
                }
            } else {
                match index {
                    AlertIndex::LoadTempFile(p) => AlertOutcome::DeleteTempFile(p),
                    AlertIndex::ExitSaveMap(_) => AlertOutcome::ExitEditor(save_all),
                    AlertIndex::LoadRecoveryFile => AlertOutcome::DeleteRecoveryFile,
                    _ => AlertOutcome::Hide,
                }
            }
        },
        AlertType::Input => {
            if !has_textbox {
                AlertOutcome::Nothing
            } else {
                match (option, index) {
                    (0, AlertIndex::SavePreset) => AlertOutcome::SavePreset,
                    _ => AlertOutcome::Hide,
                }
            }
        },
    }
}

/// A key as an alert reads it.
#[derive(Clone, Copy, PartialEq, Eq, Structural, Debug)]
pub enum AlertKey {
    Enter,
    Escape,
    Other,
}

/// The option a key chooses on an alert, if any: Enter says yes, and Escape says no on
/// alerts that ask something.
pub open spec fn key_option(alert_type: AlertType, key: AlertKey) -> Option<usize> {
    match (alert_type, key) {
        (AlertType::Inform, AlertKey::Enter) => Some(0),
        (AlertType::Inform, _) => None,
        (_, AlertKey::Enter) => Some(0),
        (_, AlertKey::Escape) => Some(1),
        _ => None,
    }
}

/// The option a key chooses on an alert, if any; when it chooses one, the key is used up.
pub fn alert_key_option(alert_type: AlertType, key: AlertKey) -> (r: Option<usize>)
    ensures
        r == key_option(alert_type, key),
{
    match alert_type {
        AlertType::Confirm | AlertType::Input => match key {
            AlertKey::Enter => Some(0),
            AlertKey::Escape => Some(1),
            AlertKey::Other => None,
        },
        AlertType::Inform => match key {
            AlertKey::Enter => Some(0),
            _ => None,
        },
    }
}

/// Any option of an information alert only closes it; so does any option of a yes-or-no alert
/// that is about nothing; and answering no to leaving the editor only closes the alert.
pub proof fn law_alert_choices(index: AlertIndex, option: usize, checkbox: bool, has_textbox: bool)
    ensures
        alert_outcome(AlertType::Inform, index, option, checkbox, has_textbox) == AlertOutcome::Hide,
        index == AlertIndex::NoIndex ==> {
            let o = alert_outcome(AlertType::Confirm, index, option, checkbox, has_textbox);
            o == AlertOutcome::Hide
        },
        option != 0 ==> alert_outcome(AlertType::Confirm, AlertIndex::ExitEditor, option, checkbox, has_textbox)
            == AlertOutcome::Hide,
{
}

/// Leaving the editor with a map not saved: the checkbox says whether to answer the same for
/// the other unsaved maps. Yes saves the map and leaves, no leaves without saving it; either
/// passes on `Some(true)` exactly when the box is ticked and nothing otherwise, the same for
/// both answers and whatever map the alert is about. No other alert looks at the checkbox.
pub proof fn law_exit_save_repeat(p: MapPosition, option: usize, checkbox: bool, has_textbox: bool, other: AlertIndex, t: AlertType)
    ensures
        ({
            let yes = alert_outcome(AlertType::Confirm, AlertIndex::ExitSaveMap(p), 0, checkbox, has_textbox);
            let no = alert_outcome(AlertType::Confirm, AlertIndex::ExitSaveMap(p), option, checkbox, has_textbox);
            &&& yes matches AlertOutcome::SaveAndExit(q, r) && q == p && (r == Some(true)) == checkbox && (r is None)
                == !checkbox
            &&& option != 0 ==> (no matches AlertOutcome::ExitEditor(r2) && (yes matches AlertOutcome::SaveAndExit(_, r)
                && r2 == r))
        }),
        !(other is ExitSaveMap) ==> alert_outcome(t, other, option, true, has_textbox) == alert_outcome(
            t,
            other,
            option,
            false,
            has_textbox,
        ),
{
}

/// Offered a temporary or a recovery file, yes loads it and no deletes it, whatever the
/// checkbox; a temporary file stays that of the map the alert is about.
pub proof fn law_file_offer_answers(p: MapPosition, option: usize, checkbox: bool, has_textbox: bool)
    requires
        option != 0,
    ensures
        alert_outcome(AlertType::Confirm, AlertIndex::LoadTempFile(p), 0, checkbox, has_textbox)
            == AlertOutcome::LoadTempFile(p),
        alert_outcome(AlertType::Confirm, AlertIndex::LoadTempFile(p), option, checkbox, has_textbox)
            == AlertOutcome::DeleteTempFile(p),
        alert_outcome(AlertType::Confirm, AlertIndex::LoadRecoveryFile, 0, checkbox, has_textbox)
            == AlertOutcome::LoadRecoveryFile,
        alert_outcome(AlertType::Confirm, AlertIndex::LoadRecoveryFile, option, checkbox, has_textbox)
            == AlertOutcome::DeleteRecoveryFile,
{
}

} // verus!
