//! The abstract syntax tree: one tagged union for every syntactic form.
//!
//! A node is built through the constructors of [`Node`], which refuse a child
//! of the wrong kind, so that a tree made by them satisfies
//! [`NodeView::well_formed`].

use vstd::prelude::*;
use crate::token::{Token, TokenView};

verus! {

/// A node of the syntax tree. Every form but the program keeps the token it
/// began with.
#[derive(Debug)]
pub enum Node {
    Program { statements: Vec<Box<Node>> },
    LetStatement { token: Token, name: Box<Node>, value: Box<Node> },
    ReturnStatement { token: Token, return_value: Box<Node> },
    ExpressionStatement { token: Token, expression: Box<Node> },
    BlockStatement { token: Token, statements: Vec<Box<Node>> },
    Identifier { token: Token, value: String },
    IntegerLiteral { token: Token, value: i64 },
    StringLiteral { token: Token, value: String },
    Boolean { token: Token, value: bool },
    PrefixExpression { token: Token, operator: String, right: Box<Node> },
    InfixExpression { token: Token, left: Box<Node>, operator: String, right: Box<Node> },
    IfExpression {
        token: Token,
        condition: Box<Node>,
        consequence: Box<Node>,
        alternative: Option<Box<Node>>,
    },
    FunctionLiteral { token: Token, parameters: Vec<Box<Node>>, body: Box<Node> },
    CallExpression { token: Token, function: Box<Node>, arguments: Vec<Box<Node>> },
    ArrayLiteral { token: Token, elements: Vec<Box<Node>> },
    HashLiteral { token: Token, pairs: Vec<(Box<Node>, Box<Node>)> },
    IndexExpression { token: Token, left: Box<Node>, index: Box<Node> },
}

#[allow(inconsistent_fields)]
/// The mathematical value of a [`Node`]: the same tree over sequences and
/// texts.
pub enum NodeView {
    Program { statements: Seq<NodeView> },
    LetStatement { token: TokenView, name: Box<NodeView>, value: Box<NodeView> },
    ReturnStatement { token: TokenView, return_value: Box<NodeView> },
    ExpressionStatement { token: TokenView, expression: Box<NodeView> },
    BlockStatement { token: TokenView, statements: Seq<NodeView> },
    Identifier { token: TokenView, value: Seq<char> },
    IntegerLiteral { token: TokenView, value: i64 },
    StringLiteral { token: TokenView, value: Seq<char> },
    Boolean { token: TokenView, value: bool },
    PrefixExpression { token: TokenView, operator: Seq<char>, right: Box<NodeView> },
    InfixExpression {
        token: TokenView,
        left: Box<NodeView>,
        operator: Seq<char>,
        right: Box<NodeView>,
    },
    IfExpression {
        token: TokenView,
        condition: Box<NodeView>,
        consequence: Box<NodeView>,
        alternative: Option<Box<NodeView>>,
    },
    FunctionLiteral { token: TokenView, parameters: Seq<NodeView>, body: Box<NodeView> },
    CallExpression { token: TokenView, function: Box<NodeView>, arguments: Seq<NodeView> },
    ArrayLiteral { token: TokenView, elements: Seq<NodeView> },
    HashLiteral { token: TokenView, pairs: Seq<(NodeView, NodeView)> },
    IndexExpression { token: TokenView, left: Box<NodeView>, index: Box<NodeView> },
}

impl Node {
    /// The mathematical value of the node.
    pub open spec fn model(&self) -> NodeView
        decreases self,
    {
        match self {
            Node::Program { statements } => NodeView::Program {
                statements: Node::models(statements),
            },
            Node::LetStatement { token, name, value } => NodeView::LetStatement {
                token: token@,
                name: Box::new(name.model()),
                value: Box::new(value.model()),
            },
            Node::ReturnStatement { token, return_value } => NodeView::ReturnStatement {
                token: token@,
                return_value: Box::new(return_value.model()),
            },
            Node::ExpressionStatement { token, expression } => NodeView::ExpressionStatement {
                token: token@,
                expression: Box::new(expression.model()),
            },
            Node::BlockStatement { token, statements } => NodeView::BlockStatement {
                token: token@,
                statements: Node::models(statements),
            },
            Node::Identifier { token, value } => NodeView::Identifier {
                token: token@,
                value: value@,
            },
            Node::IntegerLiteral { token, value } => NodeView::IntegerLiteral {
                token: token@,
                value: *value,
            },
            Node::StringLiteral { token, value } => NodeView::StringLiteral {
                token: token@,
                value: value@,
            },
            Node::Boolean { token, value } => NodeView::Boolean { token: token@, value: *value },
            Node::PrefixExpression { token, operator, right } => NodeView::PrefixExpression {
                token: token@,
                operator: operator@,
                right: Box::new(right.model()),
            },
            Node::InfixExpression { token, left, operator, right } => NodeView::InfixExpression {
                token: token@,
                left: Box::new(left.model()),
                operator: operator@,
                right: Box::new(right.model()),
            },
            Node::IfExpression { token, condition, consequence, alternative } => {
                NodeView::IfExpression {
                    token: token@,
                    condition: Box::new(condition.model()),
                    consequence: Box::new(consequence.model()),
                    alternative: match alternative {
                        Some(a) => Some(Box::new(a.model())),
                        None => None,
                    },
                }
            },
            Node::FunctionLiteral { token, parameters, body } => NodeView::FunctionLiteral {
                token: token@,
                parameters: Node::models(parameters),
                body: Box::new(body.model()),
            },
            Node::CallExpression { token, function, arguments } => NodeView::CallExpression {
                token: token@,
                function: Box::new(function.model()),
                arguments: Node::models(arguments),
            },
            Node::ArrayLiteral { token, elements } => NodeView::ArrayLiteral {
                token: token@,
                elements: Node::models(elements),
            },
            Node::HashLiteral { token, pairs } => NodeView::HashLiteral {
                token: token@,
                pairs: Node::pair_models(pairs),
            },
            Node::IndexExpression { token, left, index } => NodeView::IndexExpression {
                token: token@,
                left: Box::new(left.model()),
                index: Box::new(index.model()),
            },
        }
    }

    /// The values of a list of nodes, in order.
    pub open spec fn models(nodes: &Vec<Box<Node>>) -> Seq<NodeView>
        decreases nodes,
    {
        Seq::new(
            nodes.len() as nat,
            |i: int|
                if 0 <= i < nodes.len() {
                    nodes[i].model()
                } else {
                    arbitrary()
                },
        )
    }

    /// The values of a list of pairs of nodes, in order.
    pub open spec fn pair_models(pairs: &Vec<(Box<Node>, Box<Node>)>) -> Seq<(NodeView, NodeView)>
        decreases pairs,
    {
        Seq::new(
            pairs.len() as nat,
            |i: int|
                if 0 <= i < pairs.len() {
                    (pairs[i].0.model(), pairs[i].1.model())
                } else {
                    arbitrary()
                },
        )
    }
}

impl View for Node {
    type V = NodeView;

    open spec fn view(&self) -> NodeView {
        self.model()
    }
}

/// The value of an optional node.
pub open spec fn optional_model(node: Option<Box<Node>>) -> Option<NodeView> {
    match node {
        Some(n) => Some(n@),
        None => None,
    }
}

/// Every node of the list satisfies `kind`.
pub open spec fn all_of_kind(nodes: Seq<NodeView>, kind: spec_fn(NodeView) -> bool) -> bool {
    forall|i: int| 0 <= i < nodes.len() ==> kind(#[trigger] nodes[i])
}

/// Every node of the list is well formed.
pub open spec fn all_well_formed(nodes: Seq<NodeView>) -> bool {
    forall|i: int| 0 <= i < nodes.len() ==> (#[trigger] nodes[i]).well_formed()
}

impl NodeView {
    /// One of the four statement forms.
    pub open spec fn is_statement(self) -> bool {
        self is LetStatement || self is ReturnStatement || self is ExpressionStatement
            || self is BlockStatement
    }

    /// One of the twelve expression forms.
    pub open spec fn is_expression(self) -> bool {
        self is Identifier || self is IntegerLiteral || self is StringLiteral || self is Boolean
            || self is PrefixExpression || self is InfixExpression || self is IfExpression
            || self is FunctionLiteral || self is CallExpression || self is ArrayLiteral
            || self is HashLiteral || self is IndexExpression
    }

    /// An identifier.
    pub open spec fn is_identifier(self) -> bool {
        self is Identifier
    }

    /// A block of statements.
    pub open spec fn is_block_statement(self) -> bool {
        self is BlockStatement
    }

    /// The node, where it is a statement.
    pub open spec fn new_statement(node: NodeView) -> Option<NodeView> {
        if node.is_statement() {
            Some(node)
        } else {
            None
        }
    }

    /// The node, where it is an expression.
    pub open spec fn new_expression(node: NodeView) -> Option<NodeView> {
        if node.is_expression() {
            Some(node)
        } else {
            None
        }
    }

    /// A program of the given statements.
    pub open spec fn new_program(statements: Seq<NodeView>) -> Option<NodeView> {
        if all_of_kind(statements, |n: NodeView| n.is_statement()) {
            Some(NodeView::Program { statements })
        } else {
            None
        }
    }

    /// `let name = value`, where `name` is an identifier and `value` an
    /// expression.
    pub open spec fn new_let_statement(token: TokenView, name: NodeView, value: NodeView) -> Option<
        NodeView,
    > {
        if name.is_identifier() && value.is_expression() {
            Some(NodeView::LetStatement { token, name: Box::new(name), value: Box::new(value) })
        } else {
            None
        }
    }

    /// `return return_value`, where `return_value` is an expression.
    pub open spec fn new_return_statement(token: TokenView, return_value: NodeView) -> Option<
        NodeView,
    > {
        if return_value.is_expression() {
            Some(NodeView::ReturnStatement { token, return_value: Box::new(return_value) })
        } else {
            None
        }
    }

    /// An expression in the place of a statement.
    pub open spec fn new_expression_statement(token: TokenView, expression: NodeView) -> Option<
        NodeView,
    > {
        if expression.is_expression() {
            Some(NodeView::ExpressionStatement { token, expression: Box::new(expression) })
        } else {
            None
        }
    }

    /// A block of the given statements.
    pub open spec fn new_block_statement(token: TokenView, statements: Seq<NodeView>) -> Option<
        NodeView,
    > {
        if all_of_kind(statements, |n: NodeView| n.is_statement()) {
            Some(NodeView::BlockStatement { token, statements })
        } else {
            None
        }
    }

    /// An identifier.
    pub open spec fn new_identifier(token: TokenView, value: Seq<char>) -> NodeView {
        NodeView::Identifier { token, value }
    }

    /// An integer literal.
    pub open spec fn new_integer_literal(token: TokenView, value: i64) -> NodeView {
        NodeView::IntegerLiteral { token, value }
    }

    /// A string literal.
    pub open spec fn new_string_literal(token: TokenView, value: Seq<char>) -> NodeView {
        NodeView::StringLiteral { token, value }
    }

    /// `true` or `false`.
    pub open spec fn new_boolean(token: TokenView, value: bool) -> NodeView {
        NodeView::Boolean { token, value }
    }

    /// A prefix operator applied to an expression.
    pub open spec fn new_prefix_expression(
        token: TokenView,
        operator: Seq<char>,
        right: NodeView,
    ) -> Option<NodeView> {
        if right.is_expression() {
            Some(NodeView::PrefixExpression { token, operator, right: Box::new(right) })
        } else {
            None
        }
    }

    /// An infix operator between two expressions.
    pub open spec fn new_infix_expression(
        token: TokenView,
        left: NodeView,
        operator: Seq<char>,
        right: NodeView,
    ) -> Option<NodeView> {
        if left.is_expression() && right.is_expression() {
            Some(
                NodeView::InfixExpression {
                    token,
                    left: Box::new(left),
                    operator,
                    right: Box::new(right),
                },
            )
        } else {
            None
        }
    }

    /// `if (condition) consequence else alternative`, where the condition is
    /// an expression and both branches are blocks.
    pub open spec fn new_if_expression(
        token: TokenView,
        condition: NodeView,
        consequence: NodeView,
        alternative: Option<NodeView>,
    ) -> Option<NodeView> {
        if condition.is_expression() && consequence.is_block_statement() && (alternative matches Some(
            a,
        ) ==> a.is_block_statement()) {
            Some(
                NodeView::IfExpression {
                    token,
                    condition: Box::new(condition),
                    consequence: Box::new(consequence),
                    alternative: match alternative {
                        Some(a) => Some(Box::new(a)),
                        None => None,
                    },
                },
            )
        } else {
            None
        }
    }

    /// `fn(parameters) body`, where every parameter is an identifier and the
    /// body is a block.
    pub open spec fn new_function_literal(
        token: TokenView,
        parameters: Seq<NodeView>,
        body: NodeView,
    ) -> Option<NodeView> {
        if all_of_kind(parameters, |n: NodeView| n.is_identifier()) && body.is_block_statement() {
            Some(NodeView::FunctionLiteral { token, parameters, body: Box::new(body) })
        } else {
            None
        }
    }

    /// `function(arguments)`, where the function and every argument are
    /// expressions.
    pub open spec fn new_call_expression(
        token: TokenView,
        function: NodeView,
        arguments: Seq<NodeView>,
    ) -> Option<NodeView> {
        if function.is_expression() && all_of_kind(arguments, |n: NodeView| n.is_expression()) {
            Some(NodeView::CallExpression { token, function: Box::new(function), arguments })
        } else {
            None
        }
    }

    /// `[elements]`, where every element is an expression.
    pub open spec fn new_array_literal(token: TokenView, elements: Seq<NodeView>) -> Option<
        NodeView,
    > {
        if all_of_kind(elements, |n: NodeView| n.is_expression()) {
            Some(NodeView::ArrayLiteral { token, elements })
        } else {
            None
        }
    }

    /// `{key: value, ..}`, where every key and every value is an expression.
    pub open spec fn new_hash_literal(token: TokenView, pairs: Seq<(NodeView, NodeView)>) -> Option<
        NodeView,
    > {
        if forall|i: int|
            0 <= i < pairs.len() ==> (#[trigger] pairs[i]).0.is_expression()
                && pairs[i].1.is_expression() {
            Some(NodeView::HashLiteral { token, pairs })
        } else {
            None
        }
    }

    /// `left[index]`, where both are expressions.
    pub open spec fn new_index_expression(token: TokenView, left: NodeView, index: NodeView) -> Option<
        NodeView,
    > {
        if left.is_expression() && index.is_expression() {
            Some(NodeView::IndexExpression { token, left: Box::new(left), index: Box::new(index) })
        } else {
            None
        }
    }

    /// Every child in the tree is of the kind that its place asks for.
    #[verifier::opaque]
    pub open spec fn well_formed(self) -> bool
        decreases self,
    {
        match self {
            NodeView::Program { statements } => forall|i: int|
                0 <= i < statements.len() ==> (#[trigger] statements[i]).is_statement()
                    && statements[i].well_formed(),
            NodeView::LetStatement { token, name, value } => name.is_identifier()
                && value.is_expression() && value.well_formed(),
            NodeView::ReturnStatement { token, return_value } => return_value.is_expression()
                && return_value.well_formed(),
            NodeView::ExpressionStatement { token, expression } => expression.is_expression()
                && expression.well_formed(),
            NodeView::BlockStatement { token, statements } => forall|i: int|
                0 <= i < statements.len() ==> (#[trigger] statements[i]).is_statement()
                    && statements[i].well_formed(),
            NodeView::Identifier { .. } => true,
            NodeView::IntegerLiteral { .. } => true,
            NodeView::StringLiteral { .. } => true,
            NodeView::Boolean { .. } => true,
            NodeView::PrefixExpression { token, operator, right } => right.is_expression()
                && right.well_formed(),
            NodeView::InfixExpression { token, left, operator, right } => left.is_expression()
                && left.well_formed() && right.is_expression() && right.well_formed(),
            NodeView::IfExpression { token, condition, consequence, alternative } => {
                &&& condition.is_expression()
                &&& condition.well_formed()
                &&& consequence.is_block_statement()
                &&& consequence.well_formed()
                &&& match alternative {
                    Some(a) => a.is_block_statement() && a.well_formed(),
                    None => true,
                }
            },
            NodeView::FunctionLiteral { token, parameters, body } => {
                &&& forall|i: int|
                    0 <= i < parameters.len() ==> (#[trigger] parameters[i]).is_identifier()
                &&& body.is_block_statement()
                &&& body.well_formed()
            },
            NodeView::CallExpression { token, function, arguments } => {
                &&& function.is_expression()
                &&& function.well_formed()
                &&& forall|i: int|
                    0 <= i < arguments.len() ==> (#[trigger] arguments[i]).is_expression()
                        && arguments[i].well_formed()
            },
            NodeView::ArrayLiteral { token, elements } => forall|i: int|
                0 <= i < elements.len() ==> (#[trigger] elements[i]).is_expression()
                    && elements[i].well_formed(),
            NodeView::HashLiteral { token, pairs } => forall|i: int|
                0 <= i < pairs.len() ==> {
                    &&& (#[trigger] pairs[i]).0.is_expression()
                    &&& pairs[i].0.well_formed()
                    &&& pairs[i].1.is_expression()
                    &&& pairs[i].1.well_formed()
                },
            NodeView::IndexExpression { token, left, index } => left.is_expression()
                && left.well_formed() && index.is_expression() && index.well_formed(),
        }
    }
}

impl Node {
    /// Whether the node is one of the four statement forms.
    pub fn is_statement(node: &Node) -> (r: bool)
        ensures
            r == node@.is_statement(),
    {
        match node {
            Node::LetStatement { .. } => true,
            Node::ReturnStatement { .. } => true,
            Node::ExpressionStatement { .. } => true,
            Node::BlockStatement { .. } => true,
            _ => false,
        }
    }

    /// Whether the node is one of the twelve expression forms.
    pub fn is_expression(node: &Node) -> (r: bool)
        ensures
            r == node@.is_expression(),
    {
        match node {
            Node::Identifier { .. } => true,
            Node::IntegerLiteral { .. } => true,
            Node::StringLiteral { .. } => true,
            Node::Boolean { .. } => true,
            Node::PrefixExpression { .. } => true,
            Node::InfixExpression { .. } => true,
            Node::IfExpression { .. } => true,
            Node::FunctionLiteral { .. } => true,
            Node::CallExpression { .. } => true,
            Node::ArrayLiteral { .. } => true,
            Node::HashLiteral { .. } => true,
            Node::IndexExpression { .. } => true,
            _ => false,
        }
    }

    /// Whether the node is an identifier.
    pub fn is_identifier(node: &Node) -> (r: bool)
        ensures
            r == node@.is_identifier(),
    {
        match node {
            Node::Identifier { .. } => true,
            _ => false,
        }
    }

    /// Whether the node is a block of statements.
    pub fn is_block_statement(node: &Node) -> (r: bool)
        ensures
            r == node@.is_block_statement(),
    {
        match node {
            Node::BlockStatement { .. } => true,
            _ => false,
        }
    }

    fn all_statements(nodes: &Vec<Box<Node>>) -> (r: bool)
        ensures
            r == all_of_kind(Node::models(nodes), |n: NodeView| n.is_statement()),
    {
        let mut i: usize = 0;
        while i < nodes.len()
            invariant
                i <= nodes.len(),
                forall|j: int| 0 <= j < i ==> (#[trigger] Node::models(nodes)[j]).is_statement(),
            decreases nodes.len() - i,
        {
            if !Node::is_statement(&nodes[i]) {
                assert(!Node::models(nodes)[i as int].is_statement());
                return false;
            }
            i += 1;
        }
        true
    }

    fn all_expressions(nodes: &Vec<Box<Node>>) -> (r: bool)
        ensures
            r == all_of_kind(Node::models(nodes), |n: NodeView| n.is_expression()),
    {
        let mut i: usize = 0;
        while i < nodes.len()
            invariant
                i <= nodes.len(),
                forall|j: int| 0 <= j < i ==> (#[trigger] Node::models(nodes)[j]).is_expression(),
            decreases nodes.len() - i,
        {
            if !Node::is_expression(&nodes[i]) {
                assert(!Node::models(nodes)[i as int].is_expression());
                return false;
            }
            i += 1;
        }
        true
    }

    fn all_identifiers(nodes: &Vec<Box<Node>>) -> (r: bool)
        ensures
            r == all_of_kind(Node::models(nodes), |n: NodeView| n.is_identifier()),
    {
        let mut i: usize = 0;
        while i < nodes.len()
            invariant
                i <= nodes.len(),
                forall|j: int| 0 <= j < i ==> (#[trigger] Node::models(nodes)[j]).is_identifier(),
            decreases nodes.len() - i,
        {
            if !Node::is_identifier(&nodes[i]) {
                assert(!Node::models(nodes)[i as int].is_identifier());
                return false;
            }
            i += 1;
        }
        true
    }

    /// The node itself, where it is a statement.
    pub fn new_statement(node: Box<Node>) -> (r: Option<Box<Node>>)
        ensures
            optional_model(r) == NodeView::new_statement(node@),
            r matches Some(n) ==> n@.is_statement(),
            node@.well_formed() ==> (r matches Some(n) ==> n@.well_formed()),
    {
        if Node::is_statement(&node) {
            Some(node)
        } else {
            None
        }
    }

    /// The node itself, where it is an expression.
    pub fn new_expression(node: Box<Node>) -> (r: Option<Box<Node>>)
        ensures
            optional_model(r) == NodeView::new_expression(node@),
            r matches Some(n) ==> n@.is_expression(),
            node@.well_formed() ==> (r matches Some(n) ==> n@.well_formed()),
    {
        if Node::is_expression(&node) {
            Some(node)
        } else {
            None
        }
    }

    /// A program of the given statements; `None` where one of them is no
    /// statement.
    pub fn new_program(statements: Vec<Box<Node>>) -> (r: Option<Box<Node>>)
        ensures
            optional_model(r) == NodeView::new_program(Node::models(&statements)),
            all_well_formed(Node::models(&statements)) ==> (r matches Some(n) ==> n@.well_formed()),
    {
        proof {
            reveal(NodeView::well_formed);
        }
        if !Node::all_statements(&statements) {
            return None;
        }
        Some(Box::new(Node::Program { statements }))
    }

    /// A `let` statement; `None` unless `name` is an identifier and `value`
    /// an expression.
    pub fn new_let_statement(token: Token, name: Box<Node>, value: Box<Node>) -> (r: Option<
        Box<Node>,
    >)
        ensures
            optional_model(r) == NodeView::new_let_statement(token@, name@, value@),
            value@.well_formed() ==> (r matches Some(n) ==> n@.well_formed()),
    {
        proof {
            reveal(NodeView::well_formed);
        }
        if !Node::is_identifier(&name) {
            return None;
        }
        if !Node::is_expression(&value) {
            return None;
        }
        Some(Box::new(Node::LetStatement { token, name, value }))
    }

    /// A `return` statement; `None` unless `return_value` is an expression.
    pub fn new_return_statement(token: Token, return_value: Box<Node>) -> (r: Option<Box<Node>>)
        ensures
            optional_model(r) == NodeView::new_return_statement(token@, return_value@),
            return_value@.well_formed() ==> (r matches Some(n) ==> n@.well_formed()),
    {
        proof {
            reveal(NodeView::well_formed);
        }
        if !Node::is_expression(&return_value) {
            return None;
        }
        Some(Box::new(Node::ReturnStatement { token, return_value }))
    }

    /// An expression statement; `None` unless `expression` is an expression.
    pub fn new_expression_statement(token: Token, expression: Box<Node>) -> (r: Option<Box<Node>>)
        ensures
            optional_model(r) == NodeView::new_expression_statement(token@, expression@),
            expression@.well_formed() ==> (r matches Some(n) ==> n@.well_formed()),
    {
        proof {
            reveal(NodeView::well_formed);
        }
        if !Node::is_expression(&expression) {
            return None;
        }
        Some(Box::new(Node::ExpressionStatement { token, expression }))
    }

    /// A block; `None` where one of `statements` is no statement.
    pub fn new_block_statement(token: Token, statements: Vec<Box<Node>>) -> (r: Option<Box<Node>>)
        ensures
            optional_model(r) == NodeView::new_block_statement(token@, Node::models(&statements)),
            all_well_formed(Node::models(&statements)) ==> (r matches Some(n) ==> n@.well_formed()),
    {
        proof {
            reveal(NodeView::well_formed);
        }
        if !Node::all_statements(&statements) {
            return None;
        }
        Some(Box::new(Node::BlockStatement { token, statements }))
    }

    /// An identifier.
    pub fn new_identifier(token: Token, value: String) -> (r: Box<Node>)
        ensures
            r@ == NodeView::new_identifier(token@, value@),
            r@.well_formed(),
    {
        proof {
            reveal(NodeView::well_formed);
        }
        Box::new(Node::Identifier { token, value })
    }

    /// An integer literal.
    pub fn new_integer_literal(token: Token, value: i64) -> (r: Box<Node>)
        ensures
            r@ == NodeView::new_integer_literal(token@, value),
            r@.well_formed(),
    {
        proof {
            reveal(NodeView::well_formed);
        }
        Box::new(Node::IntegerLiteral { token, value })
    }

    /// A string literal.
    pub fn new_string_literal(token: Token, value: String) -> (r: Box<Node>)
        ensures
            r@ == NodeView::new_string_literal(token@, value@),
            r@.well_formed(),
    {
        proof {
            reveal(NodeView::well_formed);
        }
        Box::new(Node::StringLiteral { token, value })
    }

    /// `true` or `false`.
    pub fn new_boolean(token: Token, value: bool) -> (r: Box<Node>)
        ensures
            r@ == NodeView::new_boolean(token@, value),
            r@.well_formed(),
    {
        proof {
            reveal(NodeView::well_formed);
        }
        Box::new(Node::Boolean { token, value })
    }

    /// A prefix expression; `None` unless `right` is an expression.
    pub fn new_prefix_expression(token: Token, operator: String, right: Box<Node>) -> (r: Option<
        Box<Node>,
    >)
        ensures
            optional_model(r) == NodeView::new_prefix_expression(token@, operator@, right@),
            right@.well_formed() ==> (r matches Some(n) ==> n@.well_formed()),
    {
        proof {
            reveal(NodeView::well_formed);
        }
        if !Node::is_expression(&right) {
            return None;
        }
        Some(Box::new(Node::PrefixExpression { token, operator, right }))
    }

    /// An infix expression; `None` unless both operands are expressions.
    pub fn new_infix_expression(
        token: Token,
        left: Box<Node>,
        operator: String,
        right: Box<Node>,
    ) -> (r: Option<Box<Node>>)
        ensures
            optional_model(r) == NodeView::new_infix_expression(token@, left@, operator@, right@),
            left@.well_formed() && right@.well_formed() ==> (r matches Some(n) ==> n@.well_formed()),
    {
        proof {
            reveal(NodeView::well_formed);
        }
        if !Node::is_expression(&left) {
            return None;
        }
        if !Node::is_expression(&right) {
            return None;
        }
        Some(Box::new(Node::InfixExpression { token, left, operator, right }))
    }

    /// An `if` expression; `None` unless the condition is an expression and
    /// each branch is a block.
    pub fn new_if_expression(
        token: Token,
        condition: Box<Node>,
        consequence: Box<Node>,
        alternative: Option<Box<Node>>,
    ) -> (r: Option<Box<Node>>)
        ensures
            optional_model(r) == NodeView::new_if_expression(
                token@,
                condition@,
                consequence@,
                optional_model(alternative),
            ),
            condition@.well_formed() && consequence@.well_formed() && (alternative matches Some(a) ==> a@.well_formed()) ==> (r matches Some(n) ==> n@.well_formed()),
    {
        proof {
            reveal(NodeView::well_formed);
        }
        if !Node::is_expression(&condition) {
            return None;
        }
        if !Node::is_block_statement(&consequence) {
            return None;
        }
        let alternative_fits = match &alternative {
            Some(a) => Node::is_block_statement(a),
            None => true,
        };
        if !alternative_fits {
            return None;
        }
        Some(Box::new(Node::IfExpression { token, condition, consequence, alternative }))
    }

    /// A function literal; `None` unless every parameter is an identifier
    /// and the body is a block.
    pub fn new_function_literal(token: Token, parameters: Vec<Box<Node>>, body: Box<Node>) -> (r:
        Option<Box<Node>>)
        ensures
            optional_model(r) == NodeView::new_function_literal(
                token@,
                Node::models(&parameters),
                body@,
            ),
            body@.well_formed() ==> (r matches Some(n) ==> n@.well_formed()),
    {
        proof {
            reveal(NodeView::well_formed);
        }
        if !Node::all_identifiers(&parameters) {
            return None;
        }
        if !Node::is_block_statement(&body) {
            return None;
        }
        Some(Box::new(Node::FunctionLiteral { token, parameters, body }))
    }

    /// A call; `None` unless the function and every argument are
    /// expressions.
    pub fn new_call_expression(token: Token, function: Box<Node>, arguments: Vec<Box<Node>>) -> (r:
        Option<Box<Node>>)
        ensures
            optional_model(r) == NodeView::new_call_expression(
                token@,
                function@,
                Node::models(&arguments),
            ),
            function@.well_formed() && all_well_formed(Node::models(&arguments)) ==> (r matches Some(n) ==> n@.well_formed()),
    {
        proof {
            reveal(NodeView::well_formed);
        }
        if !Node::is_expression(&function) {
            return None;
        }
        if !Node::all_expressions(&arguments) {
            return None;
        }
        Some(Box::new(Node::CallExpression { token, function, arguments }))
    }

    /// An array literal; `None` where an element is no expression.
    pub fn new_array_literal(token: Token, elements: Vec<Box<Node>>) -> (r: Option<Box<Node>>)
        ensures
            optional_model(r) == NodeView::new_array_literal(token@, Node::models(&elements)),
            all_well_formed(Node::models(&elements)) ==> (r matches Some(n) ==> n@.well_formed()),
    {
        proof {
            reveal(NodeView::well_formed);
        }
        if !Node::all_expressions(&elements) {
            return None;
        }
        Some(Box::new(Node::ArrayLiteral { token, elements }))
    }

    /// A hash literal; `None` where a key or a value is no expression.
    pub fn new_hash_literal(token: Token, pairs: Vec<(Box<Node>, Box<Node>)>) -> (r: Option<
        Box<Node>,
    >)
        ensures
            optional_model(r) == NodeView::new_hash_literal(token@, Node::pair_models(&pairs)),
            (forall|i: int| 0 <= i < pairs.len() ==> (#[trigger] Node::pair_models(&pairs)[i]).0.well_formed() && Node::pair_models(&pairs)[i].1.well_formed()) ==> (r matches Some(n) ==> n@.well_formed()),
    {
        proof {
            reveal(NodeView::well_formed);
        }
        let mut i: usize = 0;
        while i < pairs.len()
            invariant
                i <= pairs.len(),
                forall|j: int|
                    0 <= j < i ==> (#[trigger] Node::pair_models(&pairs)[j]).0.is_expression()
                        && Node::pair_models(&pairs)[j].1.is_expression(),
            decreases pairs.len() - i,
        {
            if !Node::is_expression(&pairs[i].0) || !Node::is_expression(&pairs[i].1) {
                assert(!(Node::pair_models(&pairs)[i as int].0.is_expression() && Node::pair_models(
                    &pairs,
                )[i as int].1.is_expression()));
                return None;
            }
            i += 1;
        }
        Some(Box::new(Node::HashLiteral { token, pairs }))
    }

    /// An index expression; `None` unless both operands are expressions.
    pub fn new_index_expression(token: Token, left: Box<Node>, index: Box<Node>) -> (r: Option<
        Box<Node>,
    >)
        ensures
            optional_model(r) == NodeView::new_index_expression(token@, left@, index@),
            left@.well_formed() && index@.well_formed() ==> (r matches Some(n) ==> n@.well_formed()),
    {
        proof {
            reveal(NodeView::well_formed);
        }
        if !Node::is_expression(&left) {
            return None;
        }
        if !Node::is_expression(&index) {
            return None;
        }
        Some(Box::new(Node::IndexExpression { token, left, index }))
    }

    /// A copy of a list of nodes.
    pub fn clone_nodes(nodes: &Vec<Box<Node>>) -> (r: Vec<Box<Node>>)
        ensures
            Node::models(&r) == Node::models(nodes),
        decreases nodes,
    {
        let mut out: Vec<Box<Node>> = Vec::new();
        let mut i: usize = 0;
        while i < nodes.len()
            invariant
                i <= nodes.len(),
                out.len() == i,
                forall|j: int| 0 <= j < i ==> out[j]@ == nodes[j]@,
            decreases nodes.len() - i,
        {
            let copy = (*nodes[i]).clone();
            out.push(Box::new(copy));
            i += 1;
        }
        assert(Node::models(&out) =~= Node::models(nodes));
        out
    }

    /// A copy of a list of pairs of nodes.
    pub fn clone_pairs(pairs: &Vec<(Box<Node>, Box<Node>)>) -> (r: Vec<(Box<Node>, Box<Node>)>)
        ensures
            Node::pair_models(&r) == Node::pair_models(pairs),
        decreases pairs,
    {
        let mut out: Vec<(Box<Node>, Box<Node>)> = Vec::new();
        let mut i: usize = 0;
        while i < pairs.len()
            invariant
                i <= pairs.len(),
                out.len() == i,
                forall|j: int| 0 <= j < i ==> out[j].0@ == pairs[j].0@ && out[j].1@ == pairs[j].1@,
            decreases pairs.len() - i,
        {
            let key = (*pairs[i].0).clone();
            let value = (*pairs[i].1).clone();
            out.push((Box::new(key), Box::new(value)));
            i += 1;
        }
        assert(Node::pair_models(&out) =~= Node::pair_models(pairs));
        out
    }
}

impl Clone for Node {
    fn clone(&self) -> (r: Self)
        ensures
            r@ == self@,
        decreases self,
    {
        match self {
            Node::Program { statements } => Node::Program {
                statements: Node::clone_nodes(statements),
            },
            Node::LetStatement { token, name, value } => Node::LetStatement {
                token: token.clone(),
                name: Box::new((**name).clone()),
                value: Box::new((**value).clone()),
            },
            Node::ReturnStatement { token, return_value } => Node::ReturnStatement {
                token: token.clone(),
                return_value: Box::new((**return_value).clone()),
            },
            Node::ExpressionStatement { token, expression } => Node::ExpressionStatement {
                token: token.clone(),
                expression: Box::new((**expression).clone()),
            },
            Node::BlockStatement { token, statements } => Node::BlockStatement {
                token: token.clone(),
                statements: Node::clone_nodes(statements),
            },
            Node::Identifier { token, value } => Node::Identifier {
                token: token.clone(),
                value: value.clone(),
            },
            Node::IntegerLiteral { token, value } => Node::IntegerLiteral {
                token: token.clone(),
                value: *value,
            },
            Node::StringLiteral { token, value } => Node::StringLiteral {
                token: token.clone(),
                value: value.clone(),
            },
            Node::Boolean { token, value } => Node::Boolean { token: token.clone(), value: *value },
            Node::PrefixExpression { token, operator, right } => Node::PrefixExpression {
                token: token.clone(),
                operator: operator.clone(),
                right: Box::new((**right).clone()),
            },
            Node::InfixExpression { token, left, operator, right } => Node::InfixExpression {
                token: token.clone(),
                left: Box::new((**left).clone()),
                operator: operator.clone(),
                right: Box::new((**right).clone()),
            },
            Node::IfExpression { token, condition, consequence, alternative } => {
                Node::IfExpression {
                    token: token.clone(),
                    condition: Box::new((**condition).clone()),
                    consequence: Box::new((**consequence).clone()),
                    alternative: match alternative {
                        Some(a) => Some(Box::new((**a).clone())),
                        None => None,
                    },
                }
            },
            Node::FunctionLiteral { token, parameters, body } => Node::FunctionLiteral {
                token: token.clone(),
                parameters: Node::clone_nodes(parameters),
                body: Box::new((**body).clone()),
            },
            Node::CallExpression { token, function, arguments } => Node::CallExpression {
                token: token.clone(),
                function: Box::new((**function).clone()),
                arguments: Node::clone_nodes(arguments),
            },
            Node::ArrayLiteral { token, elements } => Node::ArrayLiteral {
                token: token.clone(),
                elements: Node::clone_nodes(elements),
            },
            Node::HashLiteral { token, pairs } => Node::HashLiteral {
                token: token.clone(),
                pairs: Node::clone_pairs(pairs),
            },
            Node::IndexExpression { token, left, index } => Node::IndexExpression {
                token: token.clone(),
                left: Box::new((**left).clone()),
                index: Box::new((**index).clone()),
            },
        }
    }
}

} // verus!
