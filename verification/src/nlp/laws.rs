//! Laws of intent recognition.

use vstd::prelude::*;
use crate::nlp::intent::{
    IntentClassifier, IntentPattern, IntentType, default_patterns, intents_of, longer_first, matching,
    regex_matches,
};
use crate::sorting::{key_is, same_runs, sorted_by};

verus! {

/// The built-in patterns with the intents they signal, as documented.
pub open spec fn intent_table() -> Seq<IntentPattern> {
    seq![
        ("create.*task"@, IntentType::CreateTask),
        ("new.*task"@, IntentType::CreateTask),
        ("add.*task"@, IntentType::CreateTask),
        ("update.*task"@, IntentType::UpdateTask),
        ("modify.*task"@, IntentType::UpdateTask),
        ("delete.*task"@, IntentType::DeleteTask),
        ("remove.*task"@, IntentType::DeleteTask),
        ("list.*tasks"@, IntentType::ListTasks),
        ("get.*task"@, IntentType::GetTask),
        ("show.*task"@, IntentType::GetTask),
        ("create.*agent"@, IntentType::CreateAgent),
        ("register.*agent"@, IntentType::CreateAgent),
        ("add.*agent"@, IntentType::CreateAgent),
        ("remove.*agent"@, IntentType::RemoveAgent),
        ("delete.*agent"@, IntentType::RemoveAgent),
        ("list.*agents"@, IntentType::ListAgents),
        ("get.*agent"@, IntentType::GetAgent),
        ("start.*workflow"@, IntentType::StartWorkflow),
        ("run.*workflow"@, IntentType::StartWorkflow),
        ("execute.*workflow"@, IntentType::StartWorkflow),
        ("stop.*workflow"@, IntentType::StopWorkflow),
        ("cancel.*workflow"@, IntentType::StopWorkflow),
        ("list.*workflows"@, IntentType::ListWorkflows),
        ("get.*workflow"@, IntentType::GetWorkflow),
        ("health"@, IntentType::SystemHealth),
        ("status"@, IntentType::SystemHealth),
        ("metrics"@, IntentType::GetMetrics),
        ("stats"@, IntentType::GetMetrics),
        ("config.*"@, IntentType::ConfigureSystem),
        ("settings.*"@, IntentType::ConfigureSystem),
    ]
}

proof fn lemma_table_is_builtin()
    ensures
        intent_table() == default_patterns(),
        forall|i: int, j: int| 0 <= i < 30 && 0 <= j < 30 && i != j ==> (#[trigger] default_patterns()[i]).0
            != (#[trigger] default_patterns()[j]).0,
{
    reveal_strlit("create.*task");
    reveal_strlit("new.*task");
    reveal_strlit("add.*task");
    reveal_strlit("update.*task");
    reveal_strlit("modify.*task");
    reveal_strlit("delete.*task");
    reveal_strlit("remove.*task");
    reveal_strlit("list.*tasks");
    reveal_strlit("get.*task");
    reveal_strlit("show.*task");
    reveal_strlit("create.*agent");
    reveal_strlit("register.*agent");
    reveal_strlit("add.*agent");
    reveal_strlit("remove.*agent");
    reveal_strlit("delete.*agent");
    reveal_strlit("list.*agents");
    reveal_strlit("get.*agent");
    reveal_strlit("start.*workflow");
    reveal_strlit("run.*workflow");
    reveal_strlit("execute.*workflow");
    reveal_strlit("stop.*workflow");
    reveal_strlit("cancel.*workflow");
    reveal_strlit("list.*workflows");
    reveal_strlit("get.*workflow");
    reveal_strlit("health");
    reveal_strlit("status");
    reveal_strlit("metrics");
    reveal_strlit("stats");
    reveal_strlit("config.*");
    reveal_strlit("settings.*");
    assert(intent_table() =~= default_patterns());
    let d = default_patterns();
    assert(d[0].0 == "create.*task"@);
    assert(d[1].0 == "new.*task"@);
    assert(d[2].0 == "add.*task"@);
    assert(d[3].0 == "update.*task"@);
    assert(d[4].0 == "modify.*task"@);
    assert(d[5].0 == "delete.*task"@);
    assert(d[6].0 == "remove.*task"@);
    assert(d[7].0 == "list.*tasks"@);
    assert(d[8].0 == "get.*task"@);
    assert(d[9].0 == "show.*task"@);
    assert(d[10].0 == "create.*agent"@);
    assert(d[11].0 == "register.*agent"@);
    assert(d[12].0 == "add.*agent"@);
    assert(d[13].0 == "remove.*agent"@);
    assert(d[14].0 == "delete.*agent"@);
    assert(d[15].0 == "list.*agents"@);
    assert(d[16].0 == "get.*agent"@);
    assert(d[17].0 == "start.*workflow"@);
    assert(d[18].0 == "run.*workflow"@);
    assert(d[19].0 == "execute.*workflow"@);
    assert(d[20].0 == "stop.*workflow"@);
    assert(d[21].0 == "cancel.*workflow"@);
    assert(d[22].0 == "list.*workflows"@);
    assert(d[23].0 == "get.*workflow"@);
    assert(d[24].0 == "health"@);
    assert(d[25].0 == "status"@);
    assert(d[26].0 == "metrics"@);
    assert(d[27].0 == "stats"@);
    assert(d[28].0 == "config.*"@);
    assert(d[29].0 == "settings.*"@);
    assert(d[0].0 != d[1].0) by { assert("create.*task"@.len() != "new.*task"@.len()); }
    assert(d[0].0 != d[2].0) by { assert("create.*task"@.len() != "add.*task"@.len()); }
    assert(d[0].0 != d[3].0) by { assert("create.*task"@[0] != "update.*task"@[0]); }
    assert(d[0].0 != d[4].0) by { assert("create.*task"@[0] != "modify.*task"@[0]); }
    assert(d[0].0 != d[5].0) by { assert("create.*task"@[0] != "delete.*task"@[0]); }
    assert(d[0].0 != d[6].0) by { assert("create.*task"@[0] != "remove.*task"@[0]); }
    assert(d[0].0 != d[7].0) by { assert("create.*task"@.len() != "list.*tasks"@.len()); }
    assert(d[0].0 != d[8].0) by { assert("create.*task"@.len() != "get.*task"@.len()); }
    assert(d[0].0 != d[9].0) by { assert("create.*task"@.len() != "show.*task"@.len()); }
    assert(d[0].0 != d[10].0) by { assert("create.*task"@.len() != "create.*agent"@.len()); }
    assert(d[0].0 != d[11].0) by { assert("create.*task"@.len() != "register.*agent"@.len()); }
    assert(d[0].0 != d[12].0) by { assert("create.*task"@.len() != "add.*agent"@.len()); }
    assert(d[0].0 != d[13].0) by { assert("create.*task"@.len() != "remove.*agent"@.len()); }
    assert(d[0].0 != d[14].0) by { assert("create.*task"@.len() != "delete.*agent"@.len()); }
    assert(d[0].0 != d[15].0) by { assert("create.*task"@[0] != "list.*agents"@[0]); }
    assert(d[0].0 != d[16].0) by { assert("create.*task"@.len() != "get.*agent"@.len()); }
    assert(d[0].0 != d[17].0) by { assert("create.*task"@.len() != "start.*workflow"@.len()); }
    assert(d[0].0 != d[18].0) by { assert("create.*task"@.len() != "run.*workflow"@.len()); }
    assert(d[0].0 != d[19].0) by { assert("create.*task"@.len() != "execute.*workflow"@.len()); }
    assert(d[0].0 != d[20].0) by { assert("create.*task"@.len() != "stop.*workflow"@.len()); }
    assert(d[0].0 != d[21].0) by { assert("create.*task"@.len() != "cancel.*workflow"@.len()); }
    assert(d[0].0 != d[22].0) by { assert("create.*task"@.len() != "list.*workflows"@.len()); }
    assert(d[0].0 != d[23].0) by { assert("create.*task"@.len() != "get.*workflow"@.len()); }
    assert(d[0].0 != d[24].0) by { assert("create.*task"@.len() != "health"@.len()); }
    assert(d[0].0 != d[25].0) by { assert("create.*task"@.len() != "status"@.len()); }
    assert(d[0].0 != d[26].0) by { assert("create.*task"@.len() != "metrics"@.len()); }
    assert(d[0].0 != d[27].0) by { assert("create.*task"@.len() != "stats"@.len()); }
    assert(d[0].0 != d[28].0) by { assert("create.*task"@.len() != "config.*"@.len()); }
    assert(d[0].0 != d[29].0) by { assert("create.*task"@.len() != "settings.*"@.len()); }
    assert(d[1].0 != d[2].0) by { assert("new.*task"@[0] != "add.*task"@[0]); }
    assert(d[1].0 != d[3].0) by { assert("new.*task"@.len() != "update.*task"@.len()); }
    assert(d[1].0 != d[4].0) by { assert("new.*task"@.len() != "modify.*task"@.len()); }
    assert(d[1].0 != d[5].0) by { assert("new.*task"@.len() != "delete.*task"@.len()); }
    assert(d[1].0 != d[6].0) by { assert("new.*task"@.len() != "remove.*task"@.len()); }
    assert(d[1].0 != d[7].0) by { assert("new.*task"@.len() != "list.*tasks"@.len()); }
    assert(d[1].0 != d[8].0) by { assert("new.*task"@[0] != "get.*task"@[0]); }
    assert(d[1].0 != d[9].0) by { assert("new.*task"@.len() != "show.*task"@.len()); }
    assert(d[1].0 != d[10].0) by { assert("new.*task"@.len() != "create.*agent"@.len()); }
    assert(d[1].0 != d[11].0) by { assert("new.*task"@.len() != "register.*agent"@.len()); }
    assert(d[1].0 != d[12].0) by { assert("new.*task"@.len() != "add.*agent"@.len()); }
    assert(d[1].0 != d[13].0) by { assert("new.*task"@.len() != "remove.*agent"@.len()); }
    assert(d[1].0 != d[14].0) by { assert("new.*task"@.len() != "delete.*agent"@.len()); }
    assert(d[1].0 != d[15].0) by { assert("new.*task"@.len() != "list.*agents"@.len()); }
    assert(d[1].0 != d[16].0) by { assert("new.*task"@.len() != "get.*agent"@.len()); }
    assert(d[1].0 != d[17].0) by { assert("new.*task"@.len() != "start.*workflow"@.len()); }
    assert(d[1].0 != d[18].0) by { assert("new.*task"@.len() != "run.*workflow"@.len()); }
    assert(d[1].0 != d[19].0) by { assert("new.*task"@.len() != "execute.*workflow"@.len()); }
    assert(d[1].0 != d[20].0) by { assert("new.*task"@.len() != "stop.*workflow"@.len()); }
    assert(d[1].0 != d[21].0) by { assert("new.*task"@.len() != "cancel.*workflow"@.len()); }
    assert(d[1].0 != d[22].0) by { assert("new.*task"@.len() != "list.*workflows"@.len()); }
    assert(d[1].0 != d[23].0) by { assert("new.*task"@.len() != "get.*workflow"@.len()); }
    assert(d[1].0 != d[24].0) by { assert("new.*task"@.len() != "health"@.len()); }
    assert(d[1].0 != d[25].0) by { assert("new.*task"@.len() != "status"@.len()); }
    assert(d[1].0 != d[26].0) by { assert("new.*task"@.len() != "metrics"@.len()); }
    assert(d[1].0 != d[27].0) by { assert("new.*task"@.len() != "stats"@.len()); }
    assert(d[1].0 != d[28].0) by { assert("new.*task"@.len() != "config.*"@.len()); }
    assert(d[1].0 != d[29].0) by { assert("new.*task"@.len() != "settings.*"@.len()); }
    assert(d[2].0 != d[3].0) by { assert("add.*task"@.len() != "update.*task"@.len()); }
    assert(d[2].0 != d[4].0) by { assert("add.*task"@.len() != "modify.*task"@.len()); }
    assert(d[2].0 != d[5].0) by { assert("add.*task"@.len() != "delete.*task"@.len()); }
    assert(d[2].0 != d[6].0) by { assert("add.*task"@.len() != "remove.*task"@.len()); }
    assert(d[2].0 != d[7].0) by { assert("add.*task"@.len() != "list.*tasks"@.len()); }
    assert(d[2].0 != d[8].0) by { assert("add.*task"@[0] != "get.*task"@[0]); }
    assert(d[2].0 != d[9].0) by { assert("add.*task"@.len() != "show.*task"@.len()); }
    assert(d[2].0 != d[10].0) by { assert("add.*task"@.len() != "create.*agent"@.len()); }
    assert(d[2].0 != d[11].0) by { assert("add.*task"@.len() != "register.*agent"@.len()); }
    assert(d[2].0 != d[12].0) by { assert("add.*task"@.len() != "add.*agent"@.len()); }
    assert(d[2].0 != d[13].0) by { assert("add.*task"@.len() != "remove.*agent"@.len()); }
    assert(d[2].0 != d[14].0) by { assert("add.*task"@.len() != "delete.*agent"@.len()); }
    assert(d[2].0 != d[15].0) by { assert("add.*task"@.len() != "list.*agents"@.len()); }
    assert(d[2].0 != d[16].0) by { assert("add.*task"@.len() != "get.*agent"@.len()); }
    assert(d[2].0 != d[17].0) by { assert("add.*task"@.len() != "start.*workflow"@.len()); }
    assert(d[2].0 != d[18].0) by { assert("add.*task"@.len() != "run.*workflow"@.len()); }
    assert(d[2].0 != d[19].0) by { assert("add.*task"@.len() != "execute.*workflow"@.len()); }
    assert(d[2].0 != d[20].0) by { assert("add.*task"@.len() != "stop.*workflow"@.len()); }
    assert(d[2].0 != d[21].0) by { assert("add.*task"@.len() != "cancel.*workflow"@.len()); }
    assert(d[2].0 != d[22].0) by { assert("add.*task"@.len() != "list.*workflows"@.len()); }
    assert(d[2].0 != d[23].0) by { assert("add.*task"@.len() != "get.*workflow"@.len()); }
    assert(d[2].0 != d[24].0) by { assert("add.*task"@.len() != "health"@.len()); }
    assert(d[2].0 != d[25].0) by { assert("add.*task"@.len() != "status"@.len()); }
    assert(d[2].0 != d[26].0) by { assert("add.*task"@.len() != "metrics"@.len()); }
    assert(d[2].0 != d[27].0) by { assert("add.*task"@.len() != "stats"@.len()); }
    assert(d[2].0 != d[28].0) by { assert("add.*task"@.len() != "config.*"@.len()); }
    assert(d[2].0 != d[29].0) by { assert("add.*task"@.len() != "settings.*"@.len()); }
    assert(d[3].0 != d[4].0) by { assert("update.*task"@[0] != "modify.*task"@[0]); }
    assert(d[3].0 != d[5].0) by { assert("update.*task"@[0] != "delete.*task"@[0]); }
    assert(d[3].0 != d[6].0) by { assert("update.*task"@[0] != "remove.*task"@[0]); }
    assert(d[3].0 != d[7].0) by { assert("update.*task"@.len() != "list.*tasks"@.len()); }
    assert(d[3].0 != d[8].0) by { assert("update.*task"@.len() != "get.*task"@.len()); }
    assert(d[3].0 != d[9].0) by { assert("update.*task"@.len() != "show.*task"@.len()); }
    assert(d[3].0 != d[10].0) by { assert("update.*task"@.len() != "create.*agent"@.len()); }
    assert(d[3].0 != d[11].0) by { assert("update.*task"@.len() != "register.*agent"@.len()); }
    assert(d[3].0 != d[12].0) by { assert("update.*task"@.len() != "add.*agent"@.len()); }
    assert(d[3].0 != d[13].0) by { assert("update.*task"@.len() != "remove.*agent"@.len()); }
    assert(d[3].0 != d[14].0) by { assert("update.*task"@.len() != "delete.*agent"@.len()); }
    assert(d[3].0 != d[15].0) by { assert("update.*task"@[0] != "list.*agents"@[0]); }
    assert(d[3].0 != d[16].0) by { assert("update.*task"@.len() != "get.*agent"@.len()); }
    assert(d[3].0 != d[17].0) by { assert("update.*task"@.len() != "start.*workflow"@.len()); }
    assert(d[3].0 != d[18].0) by { assert("update.*task"@.len() != "run.*workflow"@.len()); }
    assert(d[3].0 != d[19].0) by { assert("update.*task"@.len() != "execute.*workflow"@.len()); }
    assert(d[3].0 != d[20].0) by { assert("update.*task"@.len() != "stop.*workflow"@.len()); }
    assert(d[3].0 != d[21].0) by { assert("update.*task"@.len() != "cancel.*workflow"@.len()); }
    assert(d[3].0 != d[22].0) by { assert("update.*task"@.len() != "list.*workflows"@.len()); }
    assert(d[3].0 != d[23].0) by { assert("update.*task"@.len() != "get.*workflow"@.len()); }
    assert(d[3].0 != d[24].0) by { assert("update.*task"@.len() != "health"@.len()); }
    assert(d[3].0 != d[25].0) by { assert("update.*task"@.len() != "status"@.len()); }
    assert(d[3].0 != d[26].0) by { assert("update.*task"@.len() != "metrics"@.len()); }
    assert(d[3].0 != d[27].0) by { assert("update.*task"@.len() != "stats"@.len()); }
    assert(d[3].0 != d[28].0) by { assert("update.*task"@.len() != "config.*"@.len()); }
    assert(d[3].0 != d[29].0) by { assert("update.*task"@.len() != "settings.*"@.len()); }
    assert(d[4].0 != d[5].0) by { assert("modify.*task"@[0] != "delete.*task"@[0]); }
    assert(d[4].0 != d[6].0) by { assert("modify.*task"@[0] != "remove.*task"@[0]); }
    assert(d[4].0 != d[7].0) by { assert("modify.*task"@.len() != "list.*tasks"@.len()); }
    assert(d[4].0 != d[8].0) by { assert("modify.*task"@.len() != "get.*task"@.len()); }
    assert(d[4].0 != d[9].0) by { assert("modify.*task"@.len() != "show.*task"@.len()); }
    assert(d[4].0 != d[10].0) by { assert("modify.*task"@.len() != "create.*agent"@.len()); }
    assert(d[4].0 != d[11].0) by { assert("modify.*task"@.len() != "register.*agent"@.len()); }
    assert(d[4].0 != d[12].0) by { assert("modify.*task"@.len() != "add.*agent"@.len()); }
    assert(d[4].0 != d[13].0) by { assert("modify.*task"@.len() != "remove.*agent"@.len()); }
    assert(d[4].0 != d[14].0) by { assert("modify.*task"@.len() != "delete.*agent"@.len()); }
    assert(d[4].0 != d[15].0) by { assert("modify.*task"@[0] != "list.*agents"@[0]); }
    assert(d[4].0 != d[16].0) by { assert("modify.*task"@.len() != "get.*agent"@.len()); }
    assert(d[4].0 != d[17].0) by { assert("modify.*task"@.len() != "start.*workflow"@.len()); }
    assert(d[4].0 != d[18].0) by { assert("modify.*task"@.len() != "run.*workflow"@.len()); }
    assert(d[4].0 != d[19].0) by { assert("modify.*task"@.len() != "execute.*workflow"@.len()); }
    assert(d[4].0 != d[20].0) by { assert("modify.*task"@.len() != "stop.*workflow"@.len()); }
    assert(d[4].0 != d[21].0) by { assert("modify.*task"@.len() != "cancel.*workflow"@.len()); }
    assert(d[4].0 != d[22].0) by { assert("modify.*task"@.len() != "list.*workflows"@.len()); }
    assert(d[4].0 != d[23].0) by { assert("modify.*task"@.len() != "get.*workflow"@.len()); }
    assert(d[4].0 != d[24].0) by { assert("modify.*task"@.len() != "health"@.len()); }
    assert(d[4].0 != d[25].0) by { assert("modify.*task"@.len() != "status"@.len()); }
    assert(d[4].0 != d[26].0) by { assert("modify.*task"@.len() != "metrics"@.len()); }
    assert(d[4].0 != d[27].0) by { assert("modify.*task"@.len() != "stats"@.len()); }
    assert(d[4].0 != d[28].0) by { assert("modify.*task"@.len() != "config.*"@.len()); }
    assert(d[4].0 != d[29].0) by { assert("modify.*task"@.len() != "settings.*"@.len()); }
    assert(d[5].0 != d[6].0) by { assert("delete.*task"@[0] != "remove.*task"@[0]); }
    assert(d[5].0 != d[7].0) by { assert("delete.*task"@.len() != "list.*tasks"@.len()); }
    assert(d[5].0 != d[8].0) by { assert("delete.*task"@.len() != "get.*task"@.len()); }
    assert(d[5].0 != d[9].0) by { assert("delete.*task"@.len() != "show.*task"@.len()); }
    assert(d[5].0 != d[10].0) by { assert("delete.*task"@.len() != "create.*agent"@.len()); }
    assert(d[5].0 != d[11].0) by { assert("delete.*task"@.len() != "register.*agent"@.len()); }
    assert(d[5].0 != d[12].0) by { assert("delete.*task"@.len() != "add.*agent"@.len()); }
    assert(d[5].0 != d[13].0) by { assert("delete.*task"@.len() != "remove.*agent"@.len()); }
    assert(d[5].0 != d[14].0) by { assert("delete.*task"@.len() != "delete.*agent"@.len()); }
    assert(d[5].0 != d[15].0) by { assert("delete.*task"@[0] != "list.*agents"@[0]); }
    assert(d[5].0 != d[16].0) by { assert("delete.*task"@.len() != "get.*agent"@.len()); }
    assert(d[5].0 != d[17].0) by { assert("delete.*task"@.len() != "start.*workflow"@.len()); }
    assert(d[5].0 != d[18].0) by { assert("delete.*task"@.len() != "run.*workflow"@.len()); }
    assert(d[5].0 != d[19].0) by { assert("delete.*task"@.len() != "execute.*workflow"@.len()); }
    assert(d[5].0 != d[20].0) by { assert("delete.*task"@.len() != "stop.*workflow"@.len()); }
    assert(d[5].0 != d[21].0) by { assert("delete.*task"@.len() != "cancel.*workflow"@.len()); }
    assert(d[5].0 != d[22].0) by { assert("delete.*task"@.len() != "list.*workflows"@.len()); }
    assert(d[5].0 != d[23].0) by { assert("delete.*task"@.len() != "get.*workflow"@.len()); }
    assert(d[5].0 != d[24].0) by { assert("delete.*task"@.len() != "health"@.len()); }
    assert(d[5].0 != d[25].0) by { assert("delete.*task"@.len() != "status"@.len()); }
    assert(d[5].0 != d[26].0) by { assert("delete.*task"@.len() != "metrics"@.len()); }
    assert(d[5].0 != d[27].0) by { assert("delete.*task"@.len() != "stats"@.len()); }
    assert(d[5].0 != d[28].0) by { assert("delete.*task"@.len() != "config.*"@.len()); }
    assert(d[5].0 != d[29].0) by { assert("delete.*task"@.len() != "settings.*"@.len()); }
    assert(d[6].0 != d[7].0) by { assert("remove.*task"@.len() != "list.*tasks"@.len()); }
    assert(d[6].0 != d[8].0) by { assert("remove.*task"@.len() != "get.*task"@.len()); }
    assert(d[6].0 != d[9].0) by { assert("remove.*task"@.len() != "show.*task"@.len()); }
    assert(d[6].0 != d[10].0) by { assert("remove.*task"@.len() != "create.*agent"@.len()); }
    assert(d[6].0 != d[11].0) by { assert("remove.*task"@.len() != "register.*agent"@.len()); }
    assert(d[6].0 != d[12].0) by { assert("remove.*task"@.len() != "add.*agent"@.len()); }
    assert(d[6].0 != d[13].0) by { assert("remove.*task"@.len() != "remove.*agent"@.len()); }
    assert(d[6].0 != d[14].0) by { assert("remove.*task"@.len() != "delete.*agent"@.len()); }
    assert(d[6].0 != d[15].0) by { assert("remove.*task"@[0] != "list.*agents"@[0]); }
    assert(d[6].0 != d[16].0) by { assert("remove.*task"@.len() != "get.*agent"@.len()); }
    assert(d[6].0 != d[17].0) by { assert("remove.*task"@.len() != "start.*workflow"@.len()); }
    assert(d[6].0 != d[18].0) by { assert("remove.*task"@.len() != "run.*workflow"@.len()); }
    assert(d[6].0 != d[19].0) by { assert("remove.*task"@.len() != "execute.*workflow"@.len()); }
    assert(d[6].0 != d[20].0) by { assert("remove.*task"@.len() != "stop.*workflow"@.len()); }
    assert(d[6].0 != d[21].0) by { assert("remove.*task"@.len() != "cancel.*workflow"@.len()); }
    assert(d[6].0 != d[22].0) by { assert("remove.*task"@.len() != "list.*workflows"@.len()); }
    assert(d[6].0 != d[23].0) by { assert("remove.*task"@.len() != "get.*workflow"@.len()); }
    assert(d[6].0 != d[24].0) by { assert("remove.*task"@.len() != "health"@.len()); }
    assert(d[6].0 != d[25].0) by { assert("remove.*task"@.len() != "status"@.len()); }
    assert(d[6].0 != d[26].0) by { assert("remove.*task"@.len() != "metrics"@.len()); }
    assert(d[6].0 != d[27].0) by { assert("remove.*task"@.len() != "stats"@.len()); }
    assert(d[6].0 != d[28].0) by { assert("remove.*task"@.len() != "config.*"@.len()); }
    assert(d[6].0 != d[29].0) by { assert("remove.*task"@.len() != "settings.*"@.len()); }
    assert(d[7].0 != d[8].0) by { assert("list.*tasks"@.len() != "get.*task"@.len()); }
    assert(d[7].0 != d[9].0) by { assert("list.*tasks"@.len() != "show.*task"@.len()); }
    assert(d[7].0 != d[10].0) by { assert("list.*tasks"@.len() != "create.*agent"@.len()); }
    assert(d[7].0 != d[11].0) by { assert("list.*tasks"@.len() != "register.*agent"@.len()); }
    assert(d[7].0 != d[12].0) by { assert("list.*tasks"@.len() != "add.*agent"@.len()); }
    assert(d[7].0 != d[13].0) by { assert("list.*tasks"@.len() != "remove.*agent"@.len()); }
    assert(d[7].0 != d[14].0) by { assert("list.*tasks"@.len() != "delete.*agent"@.len()); }
    assert(d[7].0 != d[15].0) by { assert("list.*tasks"@.len() != "list.*agents"@.len()); }
    assert(d[7].0 != d[16].0) by { assert("list.*tasks"@.len() != "get.*agent"@.len()); }
    assert(d[7].0 != d[17].0) by { assert("list.*tasks"@.len() != "start.*workflow"@.len()); }
    assert(d[7].0 != d[18].0) by { assert("list.*tasks"@.len() != "run.*workflow"@.len()); }
    assert(d[7].0 != d[19].0) by { assert("list.*tasks"@.len() != "execute.*workflow"@.len()); }
    assert(d[7].0 != d[20].0) by { assert("list.*tasks"@.len() != "stop.*workflow"@.len()); }
    assert(d[7].0 != d[21].0) by { assert("list.*tasks"@.len() != "cancel.*workflow"@.len()); }
    assert(d[7].0 != d[22].0) by { assert("list.*tasks"@.len() != "list.*workflows"@.len()); }
    assert(d[7].0 != d[23].0) by { assert("list.*tasks"@.len() != "get.*workflow"@.len()); }
    assert(d[7].0 != d[24].0) by { assert("list.*tasks"@.len() != "health"@.len()); }
    assert(d[7].0 != d[25].0) by { assert("list.*tasks"@.len() != "status"@.len()); }
    assert(d[7].0 != d[26].0) by { assert("list.*tasks"@.len() != "metrics"@.len()); }
    assert(d[7].0 != d[27].0) by { assert("list.*tasks"@.len() != "stats"@.len()); }
    assert(d[7].0 != d[28].0) by { assert("list.*tasks"@.len() != "config.*"@.len()); }
    assert(d[7].0 != d[29].0) by { assert("list.*tasks"@.len() != "settings.*"@.len()); }
    assert(d[8].0 != d[9].0) by { assert("get.*task"@.len() != "show.*task"@.len()); }
    assert(d[8].0 != d[10].0) by { assert("get.*task"@.len() != "create.*agent"@.len()); }
    assert(d[8].0 != d[11].0) by { assert("get.*task"@.len() != "register.*agent"@.len()); }
    assert(d[8].0 != d[12].0) by { assert("get.*task"@.len() != "add.*agent"@.len()); }
    assert(d[8].0 != d[13].0) by { assert("get.*task"@.len() != "remove.*agent"@.len()); }
    assert(d[8].0 != d[14].0) by { assert("get.*task"@.len() != "delete.*agent"@.len()); }
    assert(d[8].0 != d[15].0) by { assert("get.*task"@.len() != "list.*agents"@.len()); }
    assert(d[8].0 != d[16].0) by { assert("get.*task"@.len() != "get.*agent"@.len()); }
    assert(d[8].0 != d[17].0) by { assert("get.*task"@.len() != "start.*workflow"@.len()); }
    assert(d[8].0 != d[18].0) by { assert("get.*task"@.len() != "run.*workflow"@.len()); }
    assert(d[8].0 != d[19].0) by { assert("get.*task"@.len() != "execute.*workflow"@.len()); }
    assert(d[8].0 != d[20].0) by { assert("get.*task"@.len() != "stop.*workflow"@.len()); }
    assert(d[8].0 != d[21].0) by { assert("get.*task"@.len() != "cancel.*workflow"@.len()); }
    assert(d[8].0 != d[22].0) by { assert("get.*task"@.len() != "list.*workflows"@.len()); }
    assert(d[8].0 != d[23].0) by { assert("get.*task"@.len() != "get.*workflow"@.len()); }
    assert(d[8].0 != d[24].0) by { assert("get.*task"@.len() != "health"@.len()); }
    assert(d[8].0 != d[25].0) by { assert("get.*task"@.len() != "status"@.len()); }
    assert(d[8].0 != d[26].0) by { assert("get.*task"@.len() != "metrics"@.len()); }
    assert(d[8].0 != d[27].0) by { assert("get.*task"@.len() != "stats"@.len()); }
    assert(d[8].0 != d[28].0) by { assert("get.*task"@.len() != "config.*"@.len()); }
    assert(d[8].0 != d[29].0) by { assert("get.*task"@.len() != "settings.*"@.len()); }
    assert(d[9].0 != d[10].0) by { assert("show.*task"@.len() != "create.*agent"@.len()); }
    assert(d[9].0 != d[11].0) by { assert("show.*task"@.len() != "register.*agent"@.len()); }
    assert(d[9].0 != d[12].0) by { assert("show.*task"@[0] != "add.*agent"@[0]); }
    assert(d[9].0 != d[13].0) by { assert("show.*task"@.len() != "remove.*agent"@.len()); }
    assert(d[9].0 != d[14].0) by { assert("show.*task"@.len() != "delete.*agent"@.len()); }
    assert(d[9].0 != d[15].0) by { assert("show.*task"@.len() != "list.*agents"@.len()); }
    assert(d[9].0 != d[16].0) by { assert("show.*task"@[0] != "get.*agent"@[0]); }
    assert(d[9].0 != d[17].0) by { assert("show.*task"@.len() != "start.*workflow"@.len()); }
    assert(d[9].0 != d[18].0) by { assert("show.*task"@.len() != "run.*workflow"@.len()); }
    assert(d[9].0 != d[19].0) by { assert("show.*task"@.len() != "execute.*workflow"@.len()); }
    assert(d[9].0 != d[20].0) by { assert("show.*task"@.len() != "stop.*workflow"@.len()); }
    assert(d[9].0 != d[21].0) by { assert("show.*task"@.len() != "cancel.*workflow"@.len()); }
    assert(d[9].0 != d[22].0) by { assert("show.*task"@.len() != "list.*workflows"@.len()); }
    assert(d[9].0 != d[23].0) by { assert("show.*task"@.len() != "get.*workflow"@.len()); }
    assert(d[9].0 != d[24].0) by { assert("show.*task"@.len() != "health"@.len()); }
    assert(d[9].0 != d[25].0) by { assert("show.*task"@.len() != "status"@.len()); }
    assert(d[9].0 != d[26].0) by { assert("show.*task"@.len() != "metrics"@.len()); }
    assert(d[9].0 != d[27].0) by { assert("show.*task"@.len() != "stats"@.len()); }
    assert(d[9].0 != d[28].0) by { assert("show.*task"@.len() != "config.*"@.len()); }
    assert(d[9].0 != d[29].0) by { assert("show.*task"@[1] != "settings.*"@[1]); }
    assert(d[10].0 != d[11].0) by { assert("create.*agent"@.len() != "register.*agent"@.len()); }
    assert(d[10].0 != d[12].0) by { assert("create.*agent"@.len() != "add.*agent"@.len()); }
    assert(d[10].0 != d[13].0) by { assert("create.*agent"@[0] != "remove.*agent"@[0]); }
    assert(d[10].0 != d[14].0) by { assert("create.*agent"@[0] != "delete.*agent"@[0]); }
    assert(d[10].0 != d[15].0) by { assert("create.*agent"@.len() != "list.*agents"@.len()); }
    assert(d[10].0 != d[16].0) by { assert("create.*agent"@.len() != "get.*agent"@.len()); }
    assert(d[10].0 != d[17].0) by { assert("create.*agent"@.len() != "start.*workflow"@.len()); }
    assert(d[10].0 != d[18].0) by { assert("create.*agent"@[0] != "run.*workflow"@[0]); }
    assert(d[10].0 != d[19].0) by { assert("create.*agent"@.len() != "execute.*workflow"@.len()); }
    assert(d[10].0 != d[20].0) by { assert("create.*agent"@.len() != "stop.*workflow"@.len()); }
    assert(d[10].0 != d[21].0) by { assert("create.*agent"@.len() != "cancel.*workflow"@.len()); }
    assert(d[10].0 != d[22].0) by { assert("create.*agent"@.len() != "list.*workflows"@.len()); }
    assert(d[10].0 != d[23].0) by { assert("create.*agent"@[0] != "get.*workflow"@[0]); }
    assert(d[10].0 != d[24].0) by { assert("create.*agent"@.len() != "health"@.len()); }
    assert(d[10].0 != d[25].0) by { assert("create.*agent"@.len() != "status"@.len()); }
    assert(d[10].0 != d[26].0) by { assert("create.*agent"@.len() != "metrics"@.len()); }
    assert(d[10].0 != d[27].0) by { assert("create.*agent"@.len() != "stats"@.len()); }
    assert(d[10].0 != d[28].0) by { assert("create.*agent"@.len() != "config.*"@.len()); }
    assert(d[10].0 != d[29].0) by { assert("create.*agent"@.len() != "settings.*"@.len()); }
    assert(d[11].0 != d[12].0) by { assert("register.*agent"@.len() != "add.*agent"@.len()); }
    assert(d[11].0 != d[13].0) by { assert("register.*agent"@.len() != "remove.*agent"@.len()); }
    assert(d[11].0 != d[14].0) by { assert("register.*agent"@.len() != "delete.*agent"@.len()); }
    assert(d[11].0 != d[15].0) by { assert("register.*agent"@.len() != "list.*agents"@.len()); }
    assert(d[11].0 != d[16].0) by { assert("register.*agent"@.len() != "get.*agent"@.len()); }
    assert(d[11].0 != d[17].0) by { assert("register.*agent"@[0] != "start.*workflow"@[0]); }
    assert(d[11].0 != d[18].0) by { assert("register.*agent"@.len() != "run.*workflow"@.len()); }
    assert(d[11].0 != d[19].0) by { assert("register.*agent"@.len() != "execute.*workflow"@.len()); }
    assert(d[11].0 != d[20].0) by { assert("register.*agent"@.len() != "stop.*workflow"@.len()); }
    assert(d[11].0 != d[21].0) by { assert("register.*agent"@.len() != "cancel.*workflow"@.len()); }
    assert(d[11].0 != d[22].0) by { assert("register.*agent"@[0] != "list.*workflows"@[0]); }
    assert(d[11].0 != d[23].0) by { assert("register.*agent"@.len() != "get.*workflow"@.len()); }
    assert(d[11].0 != d[24].0) by { assert("register.*agent"@.len() != "health"@.len()); }
    assert(d[11].0 != d[25].0) by { assert("register.*agent"@.len() != "status"@.len()); }
    assert(d[11].0 != d[26].0) by { assert("register.*agent"@.len() != "metrics"@.len()); }
    assert(d[11].0 != d[27].0) by { assert("register.*agent"@.len() != "stats"@.len()); }
    assert(d[11].0 != d[28].0) by { assert("register.*agent"@.len() != "config.*"@.len()); }
    assert(d[11].0 != d[29].0) by { assert("register.*agent"@.len() != "settings.*"@.len()); }
    assert(d[12].0 != d[13].0) by { assert("add.*agent"@.len() != "remove.*agent"@.len()); }
    assert(d[12].0 != d[14].0) by { assert("add.*agent"@.len() != "delete.*agent"@.len()); }
    assert(d[12].0 != d[15].0) by { assert("add.*agent"@.len() != "list.*agents"@.len()); }
    assert(d[12].0 != d[16].0) by { assert("add.*agent"@[0] != "get.*agent"@[0]); }
    assert(d[12].0 != d[17].0) by { assert("add.*agent"@.len() != "start.*workflow"@.len()); }
    assert(d[12].0 != d[18].0) by { assert("add.*agent"@.len() != "run.*workflow"@.len()); }
    assert(d[12].0 != d[19].0) by { assert("add.*agent"@.len() != "execute.*workflow"@.len()); }
    assert(d[12].0 != d[20].0) by { assert("add.*agent"@.len() != "stop.*workflow"@.len()); }
    assert(d[12].0 != d[21].0) by { assert("add.*agent"@.len() != "cancel.*workflow"@.len()); }
    assert(d[12].0 != d[22].0) by { assert("add.*agent"@.len() != "list.*workflows"@.len()); }
    assert(d[12].0 != d[23].0) by { assert("add.*agent"@.len() != "get.*workflow"@.len()); }
    assert(d[12].0 != d[24].0) by { assert("add.*agent"@.len() != "health"@.len()); }
    assert(d[12].0 != d[25].0) by { assert("add.*agent"@.len() != "status"@.len()); }
    assert(d[12].0 != d[26].0) by { assert("add.*agent"@.len() != "metrics"@.len()); }
    assert(d[12].0 != d[27].0) by { assert("add.*agent"@.len() != "stats"@.len()); }
    assert(d[12].0 != d[28].0) by { assert("add.*agent"@.len() != "config.*"@.len()); }
    assert(d[12].0 != d[29].0) by { assert("add.*agent"@[0] != "settings.*"@[0]); }
    assert(d[13].0 != d[14].0) by { assert("remove.*agent"@[0] != "delete.*agent"@[0]); }
    assert(d[13].0 != d[15].0) by { assert("remove.*agent"@.len() != "list.*agents"@.len()); }
    assert(d[13].0 != d[16].0) by { assert("remove.*agent"@.len() != "get.*agent"@.len()); }
    assert(d[13].0 != d[17].0) by { assert("remove.*agent"@.len() != "start.*workflow"@.len()); }
    assert(d[13].0 != d[18].0) by { assert("remove.*agent"@[1] != "run.*workflow"@[1]); }
    assert(d[13].0 != d[19].0) by { assert("remove.*agent"@.len() != "execute.*workflow"@.len()); }
    assert(d[13].0 != d[20].0) by { assert("remove.*agent"@.len() != "stop.*workflow"@.len()); }
    assert(d[13].0 != d[21].0) by { assert("remove.*agent"@.len() != "cancel.*workflow"@.len()); }
    assert(d[13].0 != d[22].0) by { assert("remove.*agent"@.len() != "list.*workflows"@.len()); }
    assert(d[13].0 != d[23].0) by { assert("remove.*agent"@[0] != "get.*workflow"@[0]); }
    assert(d[13].0 != d[24].0) by { assert("remove.*agent"@.len() != "health"@.len()); }
    assert(d[13].0 != d[25].0) by { assert("remove.*agent"@.len() != "status"@.len()); }
    assert(d[13].0 != d[26].0) by { assert("remove.*agent"@.len() != "metrics"@.len()); }
    assert(d[13].0 != d[27].0) by { assert("remove.*agent"@.len() != "stats"@.len()); }
    assert(d[13].0 != d[28].0) by { assert("remove.*agent"@.len() != "config.*"@.len()); }
    assert(d[13].0 != d[29].0) by { assert("remove.*agent"@.len() != "settings.*"@.len()); }
    assert(d[14].0 != d[15].0) by { assert("delete.*agent"@.len() != "list.*agents"@.len()); }
    assert(d[14].0 != d[16].0) by { assert("delete.*agent"@.len() != "get.*agent"@.len()); }
    assert(d[14].0 != d[17].0) by { assert("delete.*agent"@.len() != "start.*workflow"@.len()); }
    assert(d[14].0 != d[18].0) by { assert("delete.*agent"@[0] != "run.*workflow"@[0]); }
    assert(d[14].0 != d[19].0) by { assert("delete.*agent"@.len() != "execute.*workflow"@.len()); }
    assert(d[14].0 != d[20].0) by { assert("delete.*agent"@.len() != "stop.*workflow"@.len()); }
    assert(d[14].0 != d[21].0) by { assert("delete.*agent"@.len() != "cancel.*workflow"@.len()); }
    assert(d[14].0 != d[22].0) by { assert("delete.*agent"@.len() != "list.*workflows"@.len()); }
    assert(d[14].0 != d[23].0) by { assert("delete.*agent"@[0] != "get.*workflow"@[0]); }
    assert(d[14].0 != d[24].0) by { assert("delete.*agent"@.len() != "health"@.len()); }
    assert(d[14].0 != d[25].0) by { assert("delete.*agent"@.len() != "status"@.len()); }
    assert(d[14].0 != d[26].0) by { assert("delete.*agent"@.len() != "metrics"@.len()); }
    assert(d[14].0 != d[27].0) by { assert("delete.*agent"@.len() != "stats"@.len()); }
    assert(d[14].0 != d[28].0) by { assert("delete.*agent"@.len() != "config.*"@.len()); }
    assert(d[14].0 != d[29].0) by { assert("delete.*agent"@.len() != "settings.*"@.len()); }
    assert(d[15].0 != d[16].0) by { assert("list.*agents"@.len() != "get.*agent"@.len()); }
    assert(d[15].0 != d[17].0) by { assert("list.*agents"@.len() != "start.*workflow"@.len()); }
    assert(d[15].0 != d[18].0) by { assert("list.*agents"@.len() != "run.*workflow"@.len()); }
    assert(d[15].0 != d[19].0) by { assert("list.*agents"@.len() != "execute.*workflow"@.len()); }
    assert(d[15].0 != d[20].0) by { assert("list.*agents"@.len() != "stop.*workflow"@.len()); }
    assert(d[15].0 != d[21].0) by { assert("list.*agents"@.len() != "cancel.*workflow"@.len()); }
    assert(d[15].0 != d[22].0) by { assert("list.*agents"@.len() != "list.*workflows"@.len()); }
    assert(d[15].0 != d[23].0) by { assert("list.*agents"@.len() != "get.*workflow"@.len()); }
    assert(d[15].0 != d[24].0) by { assert("list.*agents"@.len() != "health"@.len()); }
    assert(d[15].0 != d[25].0) by { assert("list.*agents"@.len() != "status"@.len()); }
    assert(d[15].0 != d[26].0) by { assert("list.*agents"@.len() != "metrics"@.len()); }
    assert(d[15].0 != d[27].0) by { assert("list.*agents"@.len() != "stats"@.len()); }
    assert(d[15].0 != d[28].0) by { assert("list.*agents"@.len() != "config.*"@.len()); }
    assert(d[15].0 != d[29].0) by { assert("list.*agents"@.len() != "settings.*"@.len()); }
    assert(d[16].0 != d[17].0) by { assert("get.*agent"@.len() != "start.*workflow"@.len()); }
    assert(d[16].0 != d[18].0) by { assert("get.*agent"@.len() != "run.*workflow"@.len()); }
    assert(d[16].0 != d[19].0) by { assert("get.*agent"@.len() != "execute.*workflow"@.len()); }
    assert(d[16].0 != d[20].0) by { assert("get.*agent"@.len() != "stop.*workflow"@.len()); }
    assert(d[16].0 != d[21].0) by { assert("get.*agent"@.len() != "cancel.*workflow"@.len()); }
    assert(d[16].0 != d[22].0) by { assert("get.*agent"@.len() != "list.*workflows"@.len()); }
    assert(d[16].0 != d[23].0) by { assert("get.*agent"@.len() != "get.*workflow"@.len()); }
    assert(d[16].0 != d[24].0) by { assert("get.*agent"@.len() != "health"@.len()); }
    assert(d[16].0 != d[25].0) by { assert("get.*agent"@.len() != "status"@.len()); }
    assert(d[16].0 != d[26].0) by { assert("get.*agent"@.len() != "metrics"@.len()); }
    assert(d[16].0 != d[27].0) by { assert("get.*agent"@.len() != "stats"@.len()); }
    assert(d[16].0 != d[28].0) by { assert("get.*agent"@.len() != "config.*"@.len()); }
    assert(d[16].0 != d[29].0) by { assert("get.*agent"@[0] != "settings.*"@[0]); }
    assert(d[17].0 != d[18].0) by { assert("start.*workflow"@.len() != "run.*workflow"@.len()); }
    assert(d[17].0 != d[19].0) by { assert("start.*workflow"@.len() != "execute.*workflow"@.len()); }
    assert(d[17].0 != d[20].0) by { assert("start.*workflow"@.len() != "stop.*workflow"@.len()); }
    assert(d[17].0 != d[21].0) by { assert("start.*workflow"@.len() != "cancel.*workflow"@.len()); }
    assert(d[17].0 != d[22].0) by { assert("start.*workflow"@[0] != "list.*workflows"@[0]); }
    assert(d[17].0 != d[23].0) by { assert("start.*workflow"@.len() != "get.*workflow"@.len()); }
    assert(d[17].0 != d[24].0) by { assert("start.*workflow"@.len() != "health"@.len()); }
    assert(d[17].0 != d[25].0) by { assert("start.*workflow"@.len() != "status"@.len()); }
    assert(d[17].0 != d[26].0) by { assert("start.*workflow"@.len() != "metrics"@.len()); }
    assert(d[17].0 != d[27].0) by { assert("start.*workflow"@.len() != "stats"@.len()); }
    assert(d[17].0 != d[28].0) by { assert("start.*workflow"@.len() != "config.*"@.len()); }
    assert(d[17].0 != d[29].0) by { assert("start.*workflow"@.len() != "settings.*"@.len()); }
    assert(d[18].0 != d[19].0) by { assert("run.*workflow"@.len() != "execute.*workflow"@.len()); }
    assert(d[18].0 != d[20].0) by { assert("run.*workflow"@.len() != "stop.*workflow"@.len()); }
    assert(d[18].0 != d[21].0) by { assert("run.*workflow"@.len() != "cancel.*workflow"@.len()); }
    assert(d[18].0 != d[22].0) by { assert("run.*workflow"@.len() != "list.*workflows"@.len()); }
    assert(d[18].0 != d[23].0) by { assert("run.*workflow"@[0] != "get.*workflow"@[0]); }
    assert(d[18].0 != d[24].0) by { assert("run.*workflow"@.len() != "health"@.len()); }
    assert(d[18].0 != d[25].0) by { assert("run.*workflow"@.len() != "status"@.len()); }
    assert(d[18].0 != d[26].0) by { assert("run.*workflow"@.len() != "metrics"@.len()); }
    assert(d[18].0 != d[27].0) by { assert("run.*workflow"@.len() != "stats"@.len()); }
    assert(d[18].0 != d[28].0) by { assert("run.*workflow"@.len() != "config.*"@.len()); }
    assert(d[18].0 != d[29].0) by { assert("run.*workflow"@.len() != "settings.*"@.len()); }
    assert(d[19].0 != d[20].0) by { assert("execute.*workflow"@.len() != "stop.*workflow"@.len()); }
    assert(d[19].0 != d[21].0) by { assert("execute.*workflow"@.len() != "cancel.*workflow"@.len()); }
    assert(d[19].0 != d[22].0) by { assert("execute.*workflow"@.len() != "list.*workflows"@.len()); }
    assert(d[19].0 != d[23].0) by { assert("execute.*workflow"@.len() != "get.*workflow"@.len()); }
    assert(d[19].0 != d[24].0) by { assert("execute.*workflow"@.len() != "health"@.len()); }
    assert(d[19].0 != d[25].0) by { assert("execute.*workflow"@.len() != "status"@.len()); }
    assert(d[19].0 != d[26].0) by { assert("execute.*workflow"@.len() != "metrics"@.len()); }
    assert(d[19].0 != d[27].0) by { assert("execute.*workflow"@.len() != "stats"@.len()); }
    assert(d[19].0 != d[28].0) by { assert("execute.*workflow"@.len() != "config.*"@.len()); }
    assert(d[19].0 != d[29].0) by { assert("execute.*workflow"@.len() != "settings.*"@.len()); }
    assert(d[20].0 != d[21].0) by { assert("stop.*workflow"@.len() != "cancel.*workflow"@.len()); }
    assert(d[20].0 != d[22].0) by { assert("stop.*workflow"@.len() != "list.*workflows"@.len()); }
    assert(d[20].0 != d[23].0) by { assert("stop.*workflow"@.len() != "get.*workflow"@.len()); }
    assert(d[20].0 != d[24].0) by { assert("stop.*workflow"@.len() != "health"@.len()); }
    assert(d[20].0 != d[25].0) by { assert("stop.*workflow"@.len() != "status"@.len()); }
    assert(d[20].0 != d[26].0) by { assert("stop.*workflow"@.len() != "metrics"@.len()); }
    assert(d[20].0 != d[27].0) by { assert("stop.*workflow"@.len() != "stats"@.len()); }
    assert(d[20].0 != d[28].0) by { assert("stop.*workflow"@.len() != "config.*"@.len()); }
    assert(d[20].0 != d[29].0) by { assert("stop.*workflow"@.len() != "settings.*"@.len()); }
    assert(d[21].0 != d[22].0) by { assert("cancel.*workflow"@.len() != "list.*workflows"@.len()); }
    assert(d[21].0 != d[23].0) by { assert("cancel.*workflow"@.len() != "get.*workflow"@.len()); }
    assert(d[21].0 != d[24].0) by { assert("cancel.*workflow"@.len() != "health"@.len()); }
    assert(d[21].0 != d[25].0) by { assert("cancel.*workflow"@.len() != "status"@.len()); }
    assert(d[21].0 != d[26].0) by { assert("cancel.*workflow"@.len() != "metrics"@.len()); }
    assert(d[21].0 != d[27].0) by { assert("cancel.*workflow"@.len() != "stats"@.len()); }
    assert(d[21].0 != d[28].0) by { assert("cancel.*workflow"@.len() != "config.*"@.len()); }
    assert(d[21].0 != d[29].0) by { assert("cancel.*workflow"@.len() != "settings.*"@.len()); }
    assert(d[22].0 != d[23].0) by { assert("list.*workflows"@.len() != "get.*workflow"@.len()); }
    assert(d[22].0 != d[24].0) by { assert("list.*workflows"@.len() != "health"@.len()); }
    assert(d[22].0 != d[25].0) by { assert("list.*workflows"@.len() != "status"@.len()); }
    assert(d[22].0 != d[26].0) by { assert("list.*workflows"@.len() != "metrics"@.len()); }
    assert(d[22].0 != d[27].0) by { assert("list.*workflows"@.len() != "stats"@.len()); }
    assert(d[22].0 != d[28].0) by { assert("list.*workflows"@.len() != "config.*"@.len()); }
    assert(d[22].0 != d[29].0) by { assert("list.*workflows"@.len() != "settings.*"@.len()); }
    assert(d[23].0 != d[24].0) by { assert("get.*workflow"@.len() != "health"@.len()); }
    assert(d[23].0 != d[25].0) by { assert("get.*workflow"@.len() != "status"@.len()); }
    assert(d[23].0 != d[26].0) by { assert("get.*workflow"@.len() != "metrics"@.len()); }
    assert(d[23].0 != d[27].0) by { assert("get.*workflow"@.len() != "stats"@.len()); }
    assert(d[23].0 != d[28].0) by { assert("get.*workflow"@.len() != "config.*"@.len()); }
    assert(d[23].0 != d[29].0) by { assert("get.*workflow"@.len() != "settings.*"@.len()); }
    assert(d[24].0 != d[25].0) by { assert("health"@[0] != "status"@[0]); }
    assert(d[24].0 != d[26].0) by { assert("health"@.len() != "metrics"@.len()); }
    assert(d[24].0 != d[27].0) by { assert("health"@.len() != "stats"@.len()); }
    assert(d[24].0 != d[28].0) by { assert("health"@.len() != "config.*"@.len()); }
    assert(d[24].0 != d[29].0) by { assert("health"@.len() != "settings.*"@.len()); }
    assert(d[25].0 != d[26].0) by { assert("status"@.len() != "metrics"@.len()); }
    assert(d[25].0 != d[27].0) by { assert("status"@.len() != "stats"@.len()); }
    assert(d[25].0 != d[28].0) by { assert("status"@.len() != "config.*"@.len()); }
    assert(d[25].0 != d[29].0) by { assert("status"@.len() != "settings.*"@.len()); }
    assert(d[26].0 != d[27].0) by { assert("metrics"@.len() != "stats"@.len()); }
    assert(d[26].0 != d[28].0) by { assert("metrics"@.len() != "config.*"@.len()); }
    assert(d[26].0 != d[29].0) by { assert("metrics"@.len() != "settings.*"@.len()); }
    assert(d[27].0 != d[28].0) by { assert("stats"@.len() != "config.*"@.len()); }
    assert(d[27].0 != d[29].0) by { assert("stats"@.len() != "settings.*"@.len()); }
    assert(d[28].0 != d[29].0) by { assert("config.*"@.len() != "settings.*"@.len()); }
    assert forall|i: int, j: int| 0 <= i < 30 && 0 <= j < 30 && i != j implies (#[trigger] d[i]).0 != (#[trigger] d[j]).0 by {
        assert(i == 0 || i == 1 || i == 2 || i == 3 || i == 4 || i == 5 || i == 6 || i == 7 || i == 8 || i == 9 || i == 10 || i == 11 || i == 12 || i == 13 || i == 14 || i == 15 || i == 16 || i == 17 || i == 18 || i == 19 || i == 20 || i == 21 || i == 22 || i == 23 || i == 24 || i == 25 || i == 26 || i == 27 || i == 28 || i == 29);
        assert(j == 0 || j == 1 || j == 2 || j == 3 || j == 4 || j == 5 || j == 6 || j == 7 || j == 8 || j == 9 || j == 10 || j == 11 || j == 12 || j == 13 || j == 14 || j == 15 || j == 16 || j == 17 || j == 18 || j == 19 || j == 20 || j == 21 || j == 22 || j == 23 || j == 24 || j == 25 || j == 26 || j == 27 || j == 28 || j == 29);
    }
}

/// A command whose lowercased text only the built-in pattern `k` matches
/// is classified as the intent that pattern signals: with the built-in
/// patterns, `classify_type` gives `intent_table()[k].1`.
pub proof fn law_sole_pattern_decides(c: IntentClassifier, lower: Seq<char>, k: int)
    requires
        sorted_by(c.patterns(), longer_first()),
        same_runs(c.patterns(), default_patterns(), longer_first()),
        0 <= k < 30,
        regex_matches(intent_table()[k].0, lower),
        forall|i: int| 0 <= i < c.patterns().len() && (#[trigger] c.patterns()[i]).0 != intent_table()[k].0
            ==> !regex_matches(c.patterns()[i].0, lower),
    ensures
        intents_of(matching(c.patterns(), lower)).len() > 0,
        intents_of(matching(c.patterns(), lower))[0] == intent_table()[k].1,
{
    lemma_table_is_builtin();
    let d = default_patterns();
    let ps = c.patterns();
    let p = d[k];
    let key = longer_first()(p);
    let f = key_is(longer_first(), key);
    assert(f(d[k]));
    d.lemma_filter_contains(f, k);
    assert(ps.filter(f) == d.filter(f));
    ps.lemma_filter_contains_rev(f, p);
    let ip = choose|i: int| 0 <= i < ps.len() && ps[i] == p;
    let mp = |e: IntentPattern| regex_matches(e.0, lower);
    ps.lemma_filter_contains(mp, ip);
    let m = matching(ps, lower);
    assert(m == ps.filter(mp));
    assert(m.contains(p));
    assert(m.len() > 0);
    let e = m[0];
    ps.lemma_filter_pred(mp, 0);
    assert(m.contains(e));
    ps.lemma_filter_contains_rev(mp, e);
    assert(regex_matches(e.0, lower));
    let ie = choose|i: int| 0 <= i < ps.len() && ps[i] == e;
    assert(e.0 == p.0);
    let fe = key_is(longer_first(), longer_first()(e));
    assert(fe(ps[ie]));
    ps.lemma_filter_contains(fe, ie);
    assert(ps.filter(fe) == d.filter(fe));
    d.lemma_filter_contains_rev(fe, e);
    let je = choose|j: int| 0 <= j < d.len() && d[j] == e;
    assert(d[je].0 == d[k].0);
    assert(je == k);
}

proof fn lemma_filter_first<A>(s: Seq<A>, p: spec_fn(A) -> bool)
    requires
        s.filter(p).len() > 0,
    ensures
        exists|i0: int| 0 <= i0 < s.len() && s[i0] == s.filter(p)[0] && p(s[i0]) && forall|i: int| 0 <= i < i0 ==> !p(
            #[trigger] s[i],
        ),
    decreases s.len(),
{
    reveal_with_fuel(Seq::filter, 1);
    let w = s.drop_last();
    if w.filter(p).len() > 0 {
        lemma_filter_first(w, p);
        let i0 = choose|i0: int| 0 <= i0 < w.len() && w[i0] == w.filter(p)[0] && p(w[i0]) && forall|i: int|
            0 <= i < i0 ==> !p(#[trigger] w[i]);
        assert(s.filter(p)[0] == w.filter(p)[0]);
        assert forall|i: int| 0 <= i < i0 implies !p(#[trigger] s[i]) by {
            assert(s[i] == w[i]);
        }
        assert(s[i0] == w[i0]);
    } else {
        assert forall|i: int| 0 <= i < w.len() implies !p(#[trigger] w[i]) by {
            if p(w[i]) {
                w.lemma_filter_contains(p, i);
            }
        }
        assert(s.filter(p)[0] == s.last());
        assert forall|i: int| 0 <= i < s.len() - 1 implies !p(#[trigger] s[i]) by {
            assert(s[i] == w[i]);
        }
        assert(s[s.len() - 1] == s.last());
    }
}

/// The built-in pattern that decides is a longest one that matches: a
/// command is classified as the intent of some matching built-in
/// pattern, and no matching built-in pattern is longer.
pub proof fn law_longest_match_decides(c: IntentClassifier, lower: Seq<char>)
    requires
        sorted_by(c.patterns(), longer_first()),
        same_runs(c.patterns(), default_patterns(), longer_first()),
        intents_of(matching(c.patterns(), lower)).len() > 0,
    ensures
        exists|k: int| #![trigger intent_table()[k]]
            0 <= k < 30 && regex_matches(intent_table()[k].0, lower) && intent_table()[k].1 == intents_of(
                matching(c.patterns(), lower),
            )[0] && forall|j: int| 0 <= j < 30 && regex_matches(#[trigger] intent_table()[j].0, lower)
                ==> intent_table()[j].0.len() <= intent_table()[k].0.len(),
{
    lemma_table_is_builtin();
    let d = default_patterns();
    let ps = c.patterns();
    let mp = |e: IntentPattern| regex_matches(e.0, lower);
    let m = matching(ps, lower);
    assert(m == ps.filter(mp));
    lemma_filter_first(ps, mp);
    let i0 = choose|i0: int| 0 <= i0 < ps.len() && ps[i0] == m[0] && mp(ps[i0]) && forall|i: int| 0 <= i < i0 ==> !mp(
        #[trigger] ps[i],
    );
    let e = ps[i0];
    let fe = key_is(longer_first(), longer_first()(e));
    ps.lemma_filter_contains(fe, i0);
    assert(ps.filter(fe) == d.filter(fe));
    d.lemma_filter_contains_rev(fe, e);
    let k = choose|k: int| 0 <= k < d.len() && d[k] == e;
    assert forall|j: int| 0 <= j < 30 && regex_matches(#[trigger] intent_table()[j].0, lower)
        implies intent_table()[j].0.len() <= intent_table()[k].0.len() by {
        let ej = d[j];
        let fj = key_is(longer_first(), longer_first()(ej));
        d.lemma_filter_contains(fj, j);
        assert(ps.filter(fj) == d.filter(fj));
        ps.lemma_filter_contains_rev(fj, ej);
        let ij = choose|i: int| 0 <= i < ps.len() && ps[i] == ej;
        if ij < i0 {
            assert(!mp(ps[ij]));
        } else if ij > i0 {
            assert(longer_first()(ps[i0]) <= longer_first()(ps[ij]));
        }
    }
    assert(intents_of(m)[0] == m[0].1);
}

} // verus!
